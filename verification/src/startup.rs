//! How the program comes to know what to capture: by its configuration, by finding the target of
//! last time again, or by asking the user.
use crate::config::RulerConfig;
use crate::number::Real64;
use crate::overlay::OverlayError;
use crate::target_discovery::{ProbeResult, TargetCandidate};
use crate::text;
use crate::text::opt_view;
use crate::worker::StartupStatus;
use vstd::prelude::*;

verus! {

/// Why the program cannot start.
#[derive(Debug)]
pub struct StartupError {
    pub message: String,
}

impl StartupError {
    pub fn new(message: String) -> (error: Self)
        ensures
            error.message == message,
    {
        StartupError { message }
    }

    /// The error as it is shown.
    pub fn text(&self) -> (s: String)
        ensures
            s@ == self.message@,
    {
        self.message.clone()
    }
}

impl From<OverlayError> for StartupError {
    fn from(value: OverlayError) -> (error: Self) {
        StartupError { message: value.message }
    }
}

impl vstd::std_specs::convert::FromSpecImpl<OverlayError> for StartupError {
    open spec fn obeys_from_spec() -> bool {
        true
    }

    open spec fn from_spec(value: OverlayError) -> Self {
        StartupError { message: value.message }
    }
}

/// `config` with the scale of the game's user interface, where a window of the game is captured,
/// the configuration does not say it, and the game does.
pub open spec fn with_ui_scaler(
    config: RulerConfig,
    registry: Result<Option<Real64>, String>,
) -> RulerConfig {
    if config.ui_scaler is Some || config.capture_type@ != "window"@ {
        config
    } else {
        match registry {
            Ok(Some(value)) => RulerConfig { ui_scaler: Some(value.clamped_to_unit()), ..config },
            _ => config,
        }
    }
}

/// Adds the scale of the game's user interface where it is needed and known.
pub fn apply_runtime_ui_scaler(
    config: RulerConfig,
    registry: &Result<Option<Real64>, String>,
) -> (scaled: RulerConfig)
    ensures
        scaled == with_ui_scaler(config, *registry),
{
    if config.ui_scaler.is_some() || !text::same(&config.capture_type, "window") {
        return config;
    }
    match registry {
        Ok(Some(value)) => {
            let mut config = config;
            config.ui_scaler = Some(value.clamp_to_unit());
            config
        },
        _ => config,
    }
}

/// What was found at the place of the configuration.
#[derive(Debug)]
pub enum ConfigFile {
    Missing,
    /// It cannot be read; why.
    Invalid(String),
    Loaded(RulerConfig),
}

pub open spec fn is_missing(status: StartupStatus, config_path: Seq<char>) -> bool {
    &&& status.phase@ == "config missing"@
    &&& status.detail@ == "config.json was not found"@
    &&& status.config_path@ == config_path
    &&& status.loaded_config is None
}

pub open spec fn is_invalid(
    status: StartupStatus,
    config_path: Seq<char>,
    detail: Seq<char>,
) -> bool {
    &&& status.phase@ == "config invalid"@
    &&& status.detail@ == detail
    &&& status.config_path@ == config_path
    &&& status.loaded_config is None
}

pub open spec fn is_ready(
    status: StartupStatus,
    config_path: Seq<char>,
    config: RulerConfig,
) -> bool {
    &&& status.phase@ == "config loaded"@
    &&& status.detail@ == "config loaded for '"@ + config.capture_type@
        + "' capture; active_calibration_profile="@ + (match config.active_calibration_profile {
        Some(filename) => filename@,
        None => "--"@,
    })
    &&& status.config_path@ == config_path
    &&& status.loaded_config == Some(config)
}

/// How matters stand by what was found at the place of the configuration.
pub open spec fn stands(
    file: ConfigFile,
    usable: Result<(), String>,
    registry: Result<Option<Real64>, String>,
    config_path: Seq<char>,
    status: StartupStatus,
) -> bool {
    match (file, usable) {
        (ConfigFile::Missing, _) => is_missing(status, config_path),
        (ConfigFile::Invalid(error), _) => is_invalid(status, config_path, error@),
        (ConfigFile::Loaded(config), Ok(_)) => is_ready(
            status,
            config_path,
            with_ui_scaler(config, registry),
        ),
        (ConfigFile::Loaded(_), Err(error)) => is_invalid(status, config_path, error@),
    }
}

/// How matters stand by the configuration alone. `usable` is what capturing says of it, with the
/// scale of the game's user interface.
pub fn determine_startup_status(
    config_path: &str,
    file: ConfigFile,
    registry: &Result<Option<Real64>, String>,
    usable: Result<(), String>,
) -> (status: StartupStatus)
    ensures
        stands(file, usable, *registry, config_path@, status),
{
    match file {
        ConfigFile::Missing => StartupStatus::missing(config_path.to_owned()),
        ConfigFile::Invalid(error) => StartupStatus::invalid(config_path.to_owned(), error),
        ConfigFile::Loaded(config) => match usable {
            Ok(_) => StartupStatus::ready(
                config_path.to_owned(),
                apply_runtime_ui_scaler(config, registry),
            ),
            Err(error) => StartupStatus::invalid(config_path.to_owned(), error),
        },
    }
}

/// How matters stand once a configuration was saved: the program starts with it, under the scale of
/// the game's user interface.
pub fn saved_status(
    config_path: &str,
    saved: RulerConfig,
    registry: &Result<Option<Real64>, String>,
) -> (status: StartupStatus)
    ensures
        is_ready(status, config_path@, with_ui_scaler(saved, *registry)),
{
    StartupStatus::ready(config_path.to_owned(), apply_runtime_ui_scaler(saved, registry))
}

/// The start, as far as it is known: how matters stood, and whether the user wants to choose in
/// any case.
#[derive(Debug)]
pub struct Startup {
    pub config_path: String,
    pub phase: String,
    pub previous: Option<RulerConfig>,
    pub debug: bool,
}

/// What has happened.
#[derive(Debug)]
pub enum StartupEvent {
    Begin,
    /// The target of last time was looked for: what came of it.
    Selected(Result<Option<RulerConfig>, String>),
    /// The user has closed the wizard: with a configuration, or without one.
    WizardClosed(Option<RulerConfig>),
    /// A configuration was saved, or not; and what the game says of its scale.
    Saved(RulerConfig, Result<(), String>, Result<Option<Real64>, String>),
}

/// What to do next.
#[derive(Debug)]
pub enum StartupAction {
    /// Look for the target of last time.
    SelectTarget,
    /// Ask the user.
    RunWizard { debug: bool },
    /// Save the configuration, and start with it.
    Save(RulerConfig),
    Start(StartupStatus),
    Fail(StartupError),
}

pub open spec fn captures_replay(config: RulerConfig) -> bool {
    config.capture_type@ == "replay"@
}

/// What follows from an event.
pub open spec fn follows(
    startup: Startup,
    event: StartupEvent,
    cancelled: Seq<char>,
    action: StartupAction,
) -> bool {
    match event {
        StartupEvent::Begin => if startup.debug {
            action == (StartupAction::RunWizard { debug: true })
        } else {
            match startup.previous {
                Some(config) => if captures_replay(config) {
                    action matches StartupAction::Start(status) && is_ready(
                        status,
                        startup.config_path@,
                        config,
                    )
                } else if config.auto_select_target {
                    action == StartupAction::SelectTarget
                } else {
                    action == (StartupAction::RunWizard { debug: false })
                },
                None => action == (StartupAction::RunWizard { debug: false }),
            }
        },
        StartupEvent::Selected(result) => match result {
            Ok(Some(config)) => action == StartupAction::Save(config),
            _ => action == (StartupAction::RunWizard { debug: false }),
        },
        StartupEvent::WizardClosed(chosen) => match chosen {
            Some(config) => action == StartupAction::Save(config),
            None => action matches StartupAction::Start(status) && is_invalid(
                status,
                startup.config_path@,
                if startup.debug {
                    "debug wizard cancelled"@
                } else {
                    startup.phase@ + ": "@ + cancelled
                },
            ),
        },
        StartupEvent::Saved(config, result, registry) => match result {
            Ok(_) => action matches StartupAction::Start(status) && is_ready(
                status,
                startup.config_path@,
                with_ui_scaler(config, registry),
            ),
            Err(message) => action matches StartupAction::Fail(error) && error.message@ == message@,
        },
    }
}

/// The next step of the start. `cancelled` is what is said of a wizard that was closed without a
/// choice.
pub fn resolve_startup_config(startup: &Startup, event: StartupEvent, cancelled: &str) -> (action:
    StartupAction)
    ensures
        follows(*startup, event, cancelled@, action),
{
    match event {
        StartupEvent::Begin => {
            if startup.debug {
                return StartupAction::RunWizard { debug: true };
            }
            if let Some(config) = &startup.previous {
                if text::same(&config.capture_type, "replay") {
                    return StartupAction::Start(
                        StartupStatus::ready(startup.config_path.clone(), config.clone()),
                    );
                }
                if config.auto_select_target {
                    return StartupAction::SelectTarget;
                }
            }
            StartupAction::RunWizard { debug: false }
        },
        StartupEvent::Selected(result) => match result {
            Ok(Some(config)) => StartupAction::Save(config),
            _ => StartupAction::RunWizard { debug: false },
        },
        StartupEvent::WizardClosed(chosen) => match chosen {
            Some(config) => StartupAction::Save(config),
            None => {
                let detail = if startup.debug {
                    "debug wizard cancelled".to_owned()
                } else {
                    let mut detail = startup.phase.clone();
                    detail.append(": ");
                    detail.append(cancelled);
                    detail
                };
                StartupAction::Start(StartupStatus::invalid(startup.config_path.clone(), detail))
            },
        },
        StartupEvent::Saved(config, result, registry) => match result {
            Ok(_) => StartupAction::Start(saved_status(&startup.config_path, config, &registry)),
            Err(message) => StartupAction::Fail(StartupError::new(message)),
        },
    }
}

/// The fingerprint of the target of last time.
pub fn remembered_target(config: &RulerConfig) -> (r: Result<String, String>)
    ensures
        match r {
            Ok(fingerprint) => opt_view(config.target_fingerprint) == Some(fingerprint@),
            Err(message) => config.target_fingerprint is None && message@
                == "auto_select_target is true but target_fingerprint is missing"@,
        },
{
    match &config.target_fingerprint {
        Some(fingerprint) => Ok(fingerprint.clone()),
        None => Err("auto_select_target is true but target_fingerprint is missing".to_owned()),
    }
}

/// The place of the first candidate with that fingerprint, where there is one.
pub open spec fn is_place_of(
    candidates: Seq<TargetCandidate>,
    fingerprint: Seq<char>,
    place: Option<usize>,
) -> bool {
    match place {
        Some(k) => k < candidates.len() && candidates[k as int].fingerprint@ == fingerprint
            && forall|i: int|
            0 <= i < k ==> (#[trigger] candidates[i]).fingerprint@ != fingerprint,
        None => forall|i: int|
            0 <= i < candidates.len() ==> (#[trigger] candidates[i]).fingerprint@ != fingerprint,
    }
}

/// The place of the first candidate that is the target of last time.
pub fn find_target(candidates: &Vec<TargetCandidate>, fingerprint: &str) -> (place: Option<usize>)
    ensures
        is_place_of(candidates@, fingerprint@, place),
{
    let mut i: usize = 0;
    while i < candidates.len()
        invariant
            i <= candidates@.len(),
            forall|k: int| 0 <= k < i ==> (#[trigger] candidates@[k]).fingerprint@ != fingerprint@,
        decreases candidates@.len() - i,
    {
        if text::same(&candidates[i].fingerprint, fingerprint) {
            return Some(i);
        }
        i += 1;
    }
    None
}

/// The target of last time, found again, with what the configuration says of everything else.
pub open spec fn selected_config(config: RulerConfig, found: RulerConfig) -> RulerConfig {
    RulerConfig {
        auto_select_target: true,
        target_fingerprint: config.target_fingerprint,
        active_calibration_profile: config.active_calibration_profile,
        frame_display_mode: config.frame_display_mode,
        language: config.language,
        overlay_pos_x: config.overlay_pos_x,
        overlay_pos_y: config.overlay_pos_y,
        overlay_scale: config.overlay_scale,
        ui_scaler: config.ui_scaler,
        ..found
    }
}

/// What comes of a trial screenshot of the target of last time.
pub open spec fn is_selected(
    config: RulerConfig,
    candidate: TargetCandidate,
    probe: ProbeResult,
    r: Result<RulerConfig, String>,
) -> bool {
    match r {
        Ok(selected) => probe.error is None && probe.preview is Some && selected == selected_config(
            config,
            candidate.config,
        ),
        Err(message) => match probe.error {
            Some(error) => message@ == error@,
            None => probe.preview is None && message@
                == "matching target did not produce a screenshot preview"@,
        },
    }
}

/// The configuration to start with, where a trial screenshot of the target has worked.
pub fn try_auto_select_config(
    config: &RulerConfig,
    candidate: TargetCandidate,
    probe: &ProbeResult,
) -> (r: Result<RulerConfig, String>)
    ensures
        is_selected(*config, candidate, *probe, r),
{
    if let Some(error) = &probe.error {
        return Err(error.clone());
    }
    if probe.preview.is_none() {
        return Err("matching target did not produce a screenshot preview".to_owned());
    }
    let mut selected = candidate.config;
    selected.auto_select_target = true;
    selected.target_fingerprint = text::copy_opt(&config.target_fingerprint);
    selected.active_calibration_profile = text::copy_opt(&config.active_calibration_profile);
    selected.frame_display_mode = text::copy_opt(&config.frame_display_mode);
    selected.language = text::copy_opt(&config.language);
    selected.overlay_pos_x = config.overlay_pos_x;
    selected.overlay_pos_y = config.overlay_pos_y;
    selected.overlay_scale = config.overlay_scale;
    selected.ui_scaler = config.ui_scaler;
    Ok(selected)
}

/// Whether the log is to be detailed.
pub fn wants_trace(status: &StartupStatus) -> (b: bool)
    ensures
        b == (match status.loaded_config {
            Some(config) => config.trace_logging_enabled,
            None => false,
        }),
{
    match &status.loaded_config {
        Some(config) => config.trace_logging_enabled,
        None => false,
    }
}

/// The user wants to choose the target in any case.
pub open spec fn asks_for_wizard(args: Seq<Seq<char>>) -> bool {
    args.contains("--debug"@) || args.contains("-d"@)
}

pub fn wants_debug(args: &Vec<String>) -> (b: bool)
    ensures
        b == asks_for_wizard(text::views(args@)),
{
    text::list_contains(args, "--debug") || text::list_contains(args, "-d")
}

/// An argument needs quotes: it is empty, or holds white space or a quote.
pub open spec fn needs_quotes(value: Seq<char>) -> bool {
    value.len() == 0 || exists|i: int|
        0 <= i < value.len() && (text::is_white_space(#[trigger] value[i]) || value[i] == '"')
}

/// An argument as it is handed to a program.
pub open spec fn quoted(value: Seq<char>) -> Seq<char> {
    if needs_quotes(value) {
        seq!['"'] + text::replaced(value, seq!['"'], seq!['\\', '"']) + seq!['"']
    } else {
        value
    }
}

pub fn quote_arg(value: &str) -> (r: String)
    ensures
        r@ == quoted(value@),
{
    let chars = text::to_chars(value);
    let mut quotes = chars.len() == 0;
    let mut i: usize = 0;
    while i < chars.len()
        invariant
            i <= chars@.len(),
            chars@ == value@,
            quotes == (chars@.len() == 0 || exists|k: int|
                0 <= k < i && (text::is_white_space(#[trigger] chars@[k]) || chars@[k] == '"')),
        decreases chars@.len() - i,
    {
        if text::white_space(chars[i]) || chars[i] == '"' {
            assert(text::is_white_space(chars@[i as int]) || chars@[i as int] == '"');
            quotes = true;
        }
        i += 1;
    }
    if !quotes {
        return value.to_owned();
    }
    let mut r = String::new();
    r.push('"');
    proof {
        reveal_strlit("\"");
        reveal_strlit("\\\"");
        assert("\""@ =~= seq!['"']);
        assert("\\\""@ =~= seq!['\\', '"']);
    }
    r.append(&text::replace(value, "\"", "\\\""));
    r.push('"');
    assert(r@ =~= quoted(value@));
    r
}

/// A recorded video never needs the wizard, unless the user asks for it.
pub proof fn law_replay_starts_without_asking(startup: Startup, cancelled: Seq<char>, action: StartupAction)
    requires
        !startup.debug,
        startup.previous matches Some(config) && captures_replay(config),
        follows(startup, StartupEvent::Begin, cancelled, action),
    ensures
        action is Start,
{
}

/// Who asks for the wizard gets it, whatever was configured before; and so does who starts for the
/// first time.
pub proof fn law_wizard_opens_when_asked_for(
    args: Seq<Seq<char>>,
    startup: Startup,
    cancelled: Seq<char>,
    action: StartupAction,
)
    requires
        startup.debug == asks_for_wizard(args),
        follows(startup, StartupEvent::Begin, cancelled, action),
    ensures
        args.contains("--debug"@) || args.contains("-d"@) ==> action == (StartupAction::RunWizard {
            debug: true,
        }),
        startup.previous is None ==> action is RunWizard,
{
}

/// A configuration is saved before the program starts with it, and a target that is not found
/// again leads to the wizard.
pub proof fn law_choices_are_saved_first(
    startup: Startup,
    event: StartupEvent,
    cancelled: Seq<char>,
    action: StartupAction,
)
    requires
        follows(startup, event, cancelled, action),
    ensures
        event matches StartupEvent::WizardClosed(Some(config)) ==> action == StartupAction::Save(
            config,
        ),
        event matches StartupEvent::Selected(Ok(Some(config))) ==> action == StartupAction::Save(
            config,
        ),
        event matches StartupEvent::Selected(Ok(None)) ==> action is RunWizard,
        event matches StartupEvent::Selected(Err(_)) ==> action is RunWizard,
        action matches StartupAction::Start(status) && status.loaded_config is Some ==> (
        event is Saved || event is Begin),
{
}

/// What the user has chosen, or was found again, is what the program starts with once it is saved;
/// only the scale of the game's user interface is added. Without a save it does not start.
pub proof fn law_saved_choice_is_started(
    startup: Startup,
    config: RulerConfig,
    result: Result<(), String>,
    registry: Result<Option<Real64>, String>,
    cancelled: Seq<char>,
    chosen: StartupAction,
    found: StartupAction,
    started: StartupAction,
)
    requires
        follows(startup, StartupEvent::WizardClosed(Some(config)), cancelled, chosen),
        follows(startup, StartupEvent::Selected(Ok(Some(config))), cancelled, found),
        follows(startup, StartupEvent::Saved(config, result, registry), cancelled, started),
    ensures
        chosen == StartupAction::Save(config),
        found == StartupAction::Save(config),
        started is Start <==> result is Ok,
        started matches StartupAction::Start(status) ==> status.loaded_config == Some(
            with_ui_scaler(config, registry),
        ),
{
}

/// The scale of the game's user interface is settled once.
pub proof fn law_ui_scaler_settles(config: RulerConfig, registry: Result<Option<Real64>, String>)
    ensures
        with_ui_scaler(with_ui_scaler(config, registry), registry) == with_ui_scaler(
            config,
            registry,
        ),
        config.ui_scaler is Some ==> with_ui_scaler(config, registry) == config,
{
}

/// The scale of the game's user interface is all that is ever added to a configuration: for a window
/// it is the game's, where the game tells one and the configuration does not; what is captured
/// otherwise has none.
pub proof fn law_only_windows_get_the_scale(config: RulerConfig, value: Real64, error: String)
    ensures
        ({
            let scaled = with_ui_scaler(config, Ok(Some(value)));
            &&& scaled == (RulerConfig { ui_scaler: scaled.ui_scaler, ..config })
            &&& config.capture_type@ != "window"@ ==> scaled.ui_scaler == config.ui_scaler
            &&& config.capture_type@ == "window"@ && config.ui_scaler is None ==> scaled.ui_scaler
                == Some(value.clamped_to_unit())
        }),
        with_ui_scaler(config, Ok(None)) == config,
        with_ui_scaler(config, Err(error)) == config,
{
}

/// There is a configuration to start with only where one was read and can be used; what is wrong
/// otherwise is told, with the place where it was looked for.
pub proof fn law_only_usable_configurations_are_loaded(
    file: ConfigFile,
    usable: Result<(), String>,
    registry: Result<Option<Real64>, String>,
    config_path: Seq<char>,
    status: StartupStatus,
)
    requires
        stands(file, usable, registry, config_path, status),
    ensures
        status.config_path@ == config_path,
        status.loaded_config is Some <==> file is Loaded && usable is Ok,
        status.loaded_config matches Some(loaded) ==> (file matches ConfigFile::Loaded(config)
            && loaded == (RulerConfig { ui_scaler: loaded.ui_scaler, ..config })),
        file matches ConfigFile::Invalid(error) ==> status.detail@ == error@,
        file is Loaded ==> (usable matches Err(error) ==> status.detail@ == error@),
{
}

/// At the start the target of last time is looked for exactly where the user wants that, the
/// configuration does not play a recording, and the wizard is not asked for. Without it, and without
/// a recording, the wizard opens.
pub proof fn law_target_is_looked_for_where_wanted(
    startup: Startup,
    cancelled: Seq<char>,
    action: StartupAction,
)
    requires
        follows(startup, StartupEvent::Begin, cancelled, action),
    ensures
        action is SelectTarget <==> !startup.debug && (startup.previous matches Some(config)
            && config.auto_select_target && config.capture_type@ != "replay"@),
        action is Start <==> !startup.debug && (startup.previous matches Some(config)
            && config.capture_type@ == "replay"@),
        action matches StartupAction::Start(status) ==> status.loaded_config == startup.previous
            && status.config_path@ == startup.config_path@,
        action matches StartupAction::RunWizard { debug } ==> debug == startup.debug,
        !(action is Save) && !(action is Fail),
{
}

/// Whoever closes the wizard without a choice starts without a configuration, and is told so; a
/// configuration that cannot be saved ends the start with the reason.
pub proof fn law_cancelled_wizard_starts_nothing(
    startup: Startup,
    config: RulerConfig,
    message: String,
    registry: Result<Option<Real64>, String>,
    cancelled: Seq<char>,
    closed: StartupAction,
    refused: StartupAction,
)
    requires
        follows(startup, StartupEvent::WizardClosed(None), cancelled, closed),
        follows(startup, StartupEvent::Saved(config, Err(message), registry), cancelled, refused),
    ensures
        closed matches StartupAction::Start(status) && status.loaded_config is None
            && status.config_path@ == startup.config_path@,
        !startup.debug ==> (closed matches StartupAction::Start(status) && text::ends_with(
            status.detail@,
            cancelled,
        ) && text::starts_with(status.detail@, startup.phase@)),
        refused matches StartupAction::Fail(error) && error.message@ == message@,
{
    if !startup.debug {
        let detail = startup.phase@ + ": "@ + cancelled;
        assert(detail.skip(detail.len() - cancelled.len()) =~= cancelled);
        assert(detail.take(startup.phase@.len() as int) =~= startup.phase@);
    }
}

/// A target that is found again is captured as it was found now, and with the user's settings: what
/// was found under other settings makes no difference to them, and what was configured makes none
/// to what is captured.
pub proof fn law_found_again_keeps_the_settings(
    config: RulerConfig,
    other: RulerConfig,
    found: RulerConfig,
)
    ensures
        ({
            let selected = selected_config(config, found);
            let elsewhere = selected_config(other, found);
            &&& selected.auto_select_target
            &&& selected.target_fingerprint == config.target_fingerprint
            &&& selected.active_calibration_profile == config.active_calibration_profile
            &&& selected.frame_display_mode == config.frame_display_mode
            &&& selected.language == config.language
            &&& selected.overlay_pos_x == config.overlay_pos_x
            &&& selected.overlay_pos_y == config.overlay_pos_y
            &&& selected.overlay_scale == config.overlay_scale
            &&& selected.ui_scaler == config.ui_scaler
            &&& selected.capture_type == found.capture_type
            &&& selected.install_path == found.install_path
            &&& selected.instance_index == found.instance_index
            &&& selected_config(other, selected) == elsewhere
            &&& selected_config(config, elsewhere) == selected
        }),
{
}

/// An argument without white space and quotes is handed over as it is; any other stands between
/// quotes, and where it holds none of its own nothing else is changed.
pub proof fn law_arguments_stand_between_quotes(value: Seq<char>)
    ensures
        !needs_quotes(value) ==> quoted(value) == value,
        needs_quotes(value) ==> {
            &&& quoted(value).len() >= 2
            &&& quoted(value)[0] == '"'
            &&& quoted(value).last() == '"'
        },
        needs_quotes(value) && !value.contains('"') ==> quoted(value).subrange(
            1,
            quoted(value).len() - 1,
        ) == value,
{
    let inner = text::replaced(value, seq!['"'], seq!['\\', '"']);
    if needs_quotes(value) {
        assert(quoted(value).last() == '"');
        if !value.contains('"') {
            assert(!text::contains_text(value, seq!['"'])) by {
                if text::contains_text(value, seq!['"']) {
                    let i = choose|i: int| text::stands_at(value, seq!['"'], i);
                    assert(value.subrange(i, i + 1)[0] == '"');
                    assert(value[i] == '"');
                }
            }
            text::law_replacing_by_the_same_keeps(value, seq!['"'], seq!['\\', '"']);
            assert(quoted(value).subrange(1, quoted(value).len() - 1) =~= value);
        }
    }
}

/// A target of last time that is there is found, by its fingerprint alone, and it is taken where a
/// trial screenshot of it has brought a picture without an error, and only there.
pub proof fn law_target_is_found_again(
    candidates: Seq<TargetCandidate>,
    fingerprint: Seq<char>,
    place: Option<usize>,
    config: RulerConfig,
    probe: ProbeResult,
    r: Result<RulerConfig, String>,
)
    requires
        is_place_of(candidates, fingerprint, place),
        place matches Some(k) ==> is_selected(config, candidates[k as int], probe, r),
    ensures
        place is Some <==> exists|i: int|
            0 <= i < candidates.len() && (#[trigger] candidates[i]).fingerprint@ == fingerprint,
        place matches Some(k) ==> {
            &&& candidates[k as int].fingerprint@ == fingerprint
            &&& r is Ok <==> probe.error is None && probe.preview is Some
            &&& r matches Ok(selected) ==> selected.capture_type == candidates[k as int].config.capture_type
                && selected.instance_index == candidates[k as int].config.instance_index
                && selected.device_id == candidates[k as int].config.device_id
                && selected.window_handle == candidates[k as int].config.window_handle
                && selected.language == config.language
            &&& r matches Err(message) ==> (probe.error matches Some(error) ==> message@ == error@)
        },
{
}

} // verus!
