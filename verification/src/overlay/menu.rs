//! The menu of the overlay.
use crate::commands::UiCommand;
use crate::config_wizard::sync::tr;
use crate::i18n::{filled_in, value_views, I18n};
use crate::number::{Real64, ONE_BITS};
use crate::text;
use crate::text::{opt_view, trimmed};
use crate::ui_state::{
    FrameDisplayMode, OverlayMode, ProfileMenuItem, UiSnapshot, VERSION,
};
use crate::worker::{shown_anew, SharedAppState};
use vstd::prelude::*;

verus! {

/// The page of the project.
pub const ABOUT_PAGE_URL: &'static str = "https://github.com/ZeroAd-06/ArknightsCostBarRuler";

/// The width of the menu in units of the design.
pub const MENU_LOGICAL_W: u32 = 300;

/// The height of the menu in units of the design: five rows and one for each profile, two
/// dividers, and the padding.
pub fn menu_logical_height(n_profiles: usize) -> (height: u128)
    ensures
        height == 2 * 8 + (5 + n_profiles) * 30 + 2 * 12,
{
    2 * 8 + (5 + n_profiles as u128) * 30 + 2 * 12
}

pub open spec fn index_of_mode(mode: FrameDisplayMode) -> i32 {
    match mode {
        FrameDisplayMode::ZeroToNMinusOne => 0,
        FrameDisplayMode::ZeroToN => 1,
        FrameDisplayMode::OneToN => 2,
    }
}

pub open spec fn mode_at(index: i32) -> FrameDisplayMode {
    if index == 1 {
        FrameDisplayMode::ZeroToN
    } else if index == 2 {
        FrameDisplayMode::OneToN
    } else {
        FrameDisplayMode::ZeroToNMinusOne
    }
}

pub fn display_mode_index(mode: FrameDisplayMode) -> (index: i32)
    ensures
        index == index_of_mode(mode),
{
    match mode {
        FrameDisplayMode::ZeroToNMinusOne => 0,
        FrameDisplayMode::ZeroToN => 1,
        FrameDisplayMode::OneToN => 2,
    }
}

pub fn index_to_display_mode(index: i32) -> (mode: FrameDisplayMode)
    ensures
        mode == mode_at(index),
{
    if index == 1 {
        FrameDisplayMode::ZeroToN
    } else if index == 2 {
        FrameDisplayMode::OneToN
    } else {
        FrameDisplayMode::ZeroToNMinusOne
    }
}

pub open spec fn index_of_scale(pct: u16) -> i32 {
    if pct == 75 {
        0
    } else if pct == 125 {
        2
    } else if pct == 150 {
        3
    } else {
        1
    }
}

/// The percentage at that place of the menu.
pub open spec fn percent_at(index: i32) -> u16 {
    if index == 0 {
        75
    } else if index == 2 {
        125
    } else if index == 3 {
        150
    } else {
        100
    }
}

/// The same as a multiplier in double precision.
pub open spec fn multiplier_at(index: i32) -> Real64 {
    Real64 {
        bits: if index == 0 {
            0x3fe8_0000_0000_0000
        } else if index == 2 {
            0x3ff4_0000_0000_0000
        } else if index == 3 {
            0x3ff8_0000_0000_0000
        } else {
            ONE_BITS
        },
    }
}

pub fn scale_pct_to_index(pct: u16) -> (index: i32)
    ensures
        index == index_of_scale(pct),
{
    if pct == 75 {
        0
    } else if pct == 125 {
        2
    } else if pct == 150 {
        3
    } else {
        1
    }
}

/// The scale at that place of the menu: as a multiplier and in percent.
pub fn index_to_scale(index: i32) -> (scale: (Real64, u16))
    ensures
        scale.0 == multiplier_at(index),
        scale.1 == percent_at(index),
{
    if index == 0 {
        (Real64 { bits: 0x3fe8_0000_0000_0000 }, 75)
    } else if index == 2 {
        (Real64 { bits: 0x3ff4_0000_0000_0000 }, 125)
    } else if index == 3 {
        (Real64 { bits: 0x3ff8_0000_0000_0000 }, 150)
    } else {
        (Real64 { bits: ONE_BITS }, 100)
    }
}

/// The menu marks what was chosen in it.
pub proof fn law_menu_marks_the_choice(mode: FrameDisplayMode, index: i32)
    requires
        0 <= index <= 3,
    ensures
        mode_at(index_of_mode(mode)) == mode,
        index <= 2 ==> index_of_mode(mode_at(index)) == index,
        index_of_scale(percent_at(index)) == index,
{
}

/// The profiles that the menu lists: none while a calibration runs.
pub open spec fn listed_profiles(ui: UiSnapshot) -> Seq<ProfileMenuItem> {
    if ui.mode == OverlayMode::Calibrating {
        Seq::empty()
    } else {
        ui.profiles@
    }
}

/// A profile as the menu shows it.
#[derive(Debug)]
pub struct ProfileRow {
    pub name: String,
    pub frames: String,
    pub active: bool,
}

#[verifier::ext_equal]
pub struct ProfileRowView {
    pub name: Seq<char>,
    pub frames: Seq<char>,
    pub active: bool,
}

pub open spec fn profile_row_views(rows: Seq<ProfileRow>) -> Seq<ProfileRowView> {
    rows.map_values(
        |row: ProfileRow|
            ProfileRowView { name: row.name@, frames: row.frames@, active: row.active },
    )
}

pub open spec fn rows_of_profiles(profiles: Seq<ProfileMenuItem>) -> Seq<ProfileRowView> {
    profiles.map_values(
        |profile: ProfileMenuItem|
            ProfileRowView {
                name: profile.basename@,
                frames: profile.total_frames_str@,
                active: profile.is_active,
            },
    )
}

fn no_rows() -> (rows: Vec<ProfileRow>)
    ensures
        profile_row_views(rows@) == Seq::<ProfileRowView>::empty(),
{
    let rows: Vec<ProfileRow> = Vec::new();
    assert(profile_row_views(rows@) =~= Seq::<ProfileRowView>::empty());
    rows
}

fn rebuild_profiles(profiles: &Vec<ProfileMenuItem>) -> (rows: Vec<ProfileRow>)
    ensures
        profile_row_views(rows@) == rows_of_profiles(profiles@),
{
    let ghost want = rows_of_profiles(profiles@);
    let mut rows: Vec<ProfileRow> = Vec::new();
    let mut i: usize = 0;
    assert(profile_row_views(rows@) =~= want.take(0));
    while i < profiles.len()
        invariant
            i <= profiles@.len(),
            want == rows_of_profiles(profiles@),
            profile_row_views(rows@) == want.take(i as int),
        decreases profiles@.len() - i,
    {
        let ghost before = profile_row_views(rows@);
        let profile = &profiles[i];
        let row = ProfileRow {
            name: profile.basename.clone(),
            frames: profile.total_frames_str.clone(),
            active: profile.is_active,
        };
        proof {
            assert(want.take(i as int + 1) =~= want.take(i as int).push(want[i as int]));
            assert(profile_row_views(rows@.push(row)) =~= before.push(want[i as int]));
        }
        rows.push(row);
        i += 1;
    }
    assert(want.take(i as int) =~= want);
    rows
}

/// What the list of profiles shows, in one text.
pub open spec fn profiles_text(profiles: Seq<ProfileMenuItem>) -> Seq<char>
    decreases profiles.len(),
{
    if profiles.len() == 0 {
        Seq::empty()
    } else {
        let profile = profiles.last();
        profiles_text(profiles.drop_last()) + profile.filename@ + seq!['\u{1}'] + profile.basename@
            + seq!['\u{1}'] + profile.total_frames_str@ + seq![
            if profile.is_active {
                '1'
            } else {
                '0'
            },
            '\u{2}',
        ]
    }
}

fn profiles_signature(profiles: &Vec<ProfileMenuItem>) -> (sig: String)
    ensures
        sig@ == profiles_text(profiles@),
{
    let mut sig = String::new();
    let mut i: usize = 0;
    assert(profiles@.take(0) =~= Seq::<ProfileMenuItem>::empty());
    while i < profiles.len()
        invariant
            i <= profiles@.len(),
            sig@ == profiles_text(profiles@.take(i as int)),
        decreases profiles@.len() - i,
    {
        let ghost before = sig@;
        let profile = &profiles[i];
        assert(profiles@.take(i as int + 1).drop_last() =~= profiles@.take(i as int));
        sig.append(&profile.filename);
        sig.push('\u{1}');
        sig.append(&profile.basename);
        sig.push('\u{1}');
        sig.append(&profile.total_frames_str);
        sig.push(
            if profile.is_active {
                '1'
            } else {
                '0'
            },
        );
        sig.push('\u{2}');
        assert(sig@ =~= profiles_text(profiles@.take(i as int + 1)));
        i += 1;
    }
    assert(profiles@.take(i as int) =~= profiles@);
    sig
}

/// The menu while it is open: what its list of profiles shows.
#[derive(Debug)]
pub struct MenuState {
    pub profiles_sig: String,
    pub profile_count: usize,
}

/// What the menu shows of the state, apart from its captions.
#[derive(Debug)]
pub struct MenuSelections {
    pub calibrating: bool,
    pub display_mode: i32,
    pub scale_index: i32,
    pub timer_enabled: bool,
    pub undo_reset_enabled: bool,
    pub update_available: bool,
}

pub open spec fn selections_of(ui: UiSnapshot) -> MenuSelections {
    MenuSelections {
        calibrating: ui.mode == OverlayMode::Calibrating,
        display_mode: index_of_mode(ui.display_mode),
        scale_index: index_of_scale(ui.overlay_scale_pct),
        timer_enabled: ui.active_profile is Some,
        undo_reset_enabled: ui.can_undo_reset,
        update_available: ui.update_notice is Some,
    }
}

pub fn menu_selections(ui: &UiSnapshot) -> (selections: MenuSelections)
    ensures
        selections == selections_of(*ui),
{
    MenuSelections {
        calibrating: matches!(ui.mode, OverlayMode::Calibrating),
        display_mode: display_mode_index(ui.display_mode),
        scale_index: scale_pct_to_index(ui.overlay_scale_pct),
        timer_enabled: ui.active_profile.is_some(),
        undo_reset_enabled: ui.can_undo_reset,
        update_available: ui.update_notice.is_some(),
    }
}

/// The menu as it opens, with its list of profiles.
pub fn open_menu(ui: &UiSnapshot) -> (r: (MenuState, Vec<ProfileRow>))
    ensures
        (r.0).profiles_sig@ == profiles_text(listed_profiles(*ui)),
        (r.0).profile_count == listed_profiles(*ui).len(),
        profile_row_views((r.1)@) == rows_of_profiles(listed_profiles(*ui)),
{
    if matches!(ui.mode, OverlayMode::Calibrating) {
        let none: Vec<ProfileMenuItem> = Vec::new();
        let rows = no_rows();
        proof {
            assert(none@ =~= listed_profiles(*ui));
            assert(rows_of_profiles(listed_profiles(*ui)) =~= Seq::<ProfileRowView>::empty());
        }
        (MenuState { profiles_sig: profiles_signature(&none), profile_count: 0 }, rows)
    } else {
        (
            MenuState {
                profiles_sig: profiles_signature(&ui.profiles),
                profile_count: ui.profiles.len(),
            },
            rebuild_profiles(&ui.profiles),
        )
    }
}

/// What changes in the open menu: its list of profiles, and for how many it has to have room.
#[derive(Debug)]
pub struct MenuUpdate {
    pub rows: Option<Vec<ProfileRow>>,
    pub resize: Option<usize>,
}

/// Brings the list of profiles of the open menu up to date. It is made anew only when it changes,
/// so that a field that is being edited stays.
pub fn sync_profiles(menu: &mut MenuState, ui: &UiSnapshot) -> (update: MenuUpdate)
    ensures
        is_synced(*old(menu), *final(menu), listed_profiles(*ui), update),
{
    let (now, rows) = open_menu(ui);
    if text::same(&menu.profiles_sig, &now.profiles_sig) {
        return MenuUpdate { rows: None, resize: None };
    }
    let resize = if now.profile_count != menu.profile_count {
        Some(now.profile_count)
    } else {
        None
    };
    menu.profiles_sig = now.profiles_sig;
    menu.profile_count = now.profile_count;
    MenuUpdate { rows: Some(rows), resize }
}

/// The captions of the menu: for each the name of its property and the key of its text.
pub open spec fn menu_caption_keys() -> Seq<(Seq<char>, Seq<char>)> {
    seq![
        ("cap-calibration"@, "overlay.menu.calibration"@),
        ("cap-calibrating"@, "overlay.menu.calibrating"@),
        ("cap-display"@, "overlay.menu.display"@),
        ("cap-scale"@, "overlay.menu.scale"@),
        ("cap-timer"@, "overlay.menu.timer"@),
        ("cap-cancel"@, "overlay.dialog.cancel"@),
        ("cap-delete"@, "overlay.dialog.delete.confirm"@),
        ("label-new"@, "overlay.menu.new_short"@),
        ("update-text"@, "update.badge.menu"@),
    ]
}

pub open spec fn caption_texts(captions: Seq<(&'static str, String)>) -> Seq<
    (Seq<char>, Seq<char>),
> {
    captions.map_values(|pair: (&'static str, String)| (pair.0@, pair.1@))
}

/// The captions of the menu, and what it says of the program.
pub fn menu_captions(i18n: &I18n) -> (captions: Vec<(&'static str, String)>)
    ensures
        caption_texts(captions@) == menu_caption_keys().map_values(
            |pair: (Seq<char>, Seq<char>)| (pair.0, tr(*i18n, pair.1)),
        ).push(
            (
                "about-text"@,
                filled_in(tr(*i18n, "overlay.menu.about"@), seq![("version"@, VERSION@)]),
            ),
        ),
{
    let values: Vec<(&str, String)> = vec![("version", VERSION.to_owned())];
    assert(value_views(values@) =~= seq![("version"@, VERSION@)]);
    let captions: Vec<(&'static str, String)> = vec![
        ("cap-calibration", i18n.tr("overlay.menu.calibration")),
        ("cap-calibrating", i18n.tr("overlay.menu.calibrating")),
        ("cap-display", i18n.tr("overlay.menu.display")),
        ("cap-scale", i18n.tr("overlay.menu.scale")),
        ("cap-timer", i18n.tr("overlay.menu.timer")),
        ("cap-cancel", i18n.tr("overlay.dialog.cancel")),
        ("cap-delete", i18n.tr("overlay.dialog.delete.confirm")),
        ("label-new", i18n.tr("overlay.menu.new_short")),
        ("update-text", i18n.tr("update.badge.menu")),
        ("about-text", i18n.tr_with("overlay.menu.about", &values)),
    ];
    assert(caption_texts(captions@) =~= menu_caption_keys().map_values(
        |pair: (Seq<char>, Seq<char>)| (pair.0, tr(*i18n, pair.1)),
    ).push(
        (
            "about-text"@,
            filled_in(tr(*i18n, "overlay.menu.about"@), seq![("version"@, VERSION@)]),
        ),
    ));
    captions
}

/// What the user does in the menu.
#[derive(Debug)]
pub enum MenuAction {
    NewProfile,
    SelectProfile(i32),
    CommitRename(i32, String),
    ConfirmDelete(i32),
    SetDisplay(i32),
    SetScale(i32),
    Timer(i32),
    About,
    CancelCalibration,
    Exit,
}

/// What follows: a command, a page to open, and whether the menu closes.
#[derive(Debug)]
pub struct MenuOutcome {
    pub command: Option<UiCommand>,
    pub page: Option<String>,
    pub close: bool,
}

/// The file of the profile at that place of the list.
pub open spec fn profile_at(ui: UiSnapshot, index: i32) -> Option<Seq<char>> {
    if 0 <= index < ui.profiles@.len() {
        Some(ui.profiles@[index as int].filename@)
    } else {
        None
    }
}

/// What a command asks for.
#[verifier::ext_equal]
pub enum Asks {
    Nothing,
    PrepareCalibration,
    Use(Seq<char>),
    Rename(Seq<char>, Seq<char>),
    Delete(Seq<char>),
    Display(FrameDisplayMode),
    Scale(Real64),
    Adjust(int),
    Reset,
    UndoReset,
    Exit,
    Other,
}

pub open spec fn asks(command: Option<UiCommand>) -> Asks {
    match command {
        None => Asks::Nothing,
        Some(UiCommand::PrepareCalibration) => Asks::PrepareCalibration,
        Some(UiCommand::UseProfile { filename }) => Asks::Use(filename@),
        Some(UiCommand::RenameProfile { old, new_base }) => Asks::Rename(old@, new_base@),
        Some(UiCommand::DeleteProfile { filename }) => Asks::Delete(filename@),
        Some(UiCommand::SetDisplayMode(mode)) => Asks::Display(mode),
        Some(UiCommand::SetOverlayScale(scale)) => Asks::Scale(scale),
        Some(UiCommand::AdjustTimer { frames }) => Asks::Adjust(frames as int),
        Some(UiCommand::ResetTimer) => Asks::Reset,
        Some(UiCommand::UndoResetTimer) => Asks::UndoReset,
        Some(UiCommand::Exit) => Asks::Exit,
        Some(_) => Asks::Other,
    }
}

/// The command that follows from what the user does.
pub open spec fn asked_in_menu(action: MenuAction, ui: UiSnapshot) -> Asks {
    match action {
        MenuAction::NewProfile => Asks::PrepareCalibration,
        MenuAction::SelectProfile(index) => match profile_at(ui, index) {
            Some(filename) => Asks::Use(filename),
            None => Asks::Nothing,
        },
        MenuAction::CommitRename(index, name) => match profile_at(ui, index) {
            Some(filename) => if trimmed(name@).len() == 0 {
                Asks::Nothing
            } else {
                Asks::Rename(filename, trimmed(name@))
            },
            None => Asks::Nothing,
        },
        MenuAction::ConfirmDelete(index) => match profile_at(ui, index) {
            Some(filename) => Asks::Delete(filename),
            None => Asks::Nothing,
        },
        MenuAction::SetDisplay(index) => Asks::Display(mode_at(index)),
        MenuAction::SetScale(index) => Asks::Scale(multiplier_at(index)),
        MenuAction::Timer(step) => if step == 0 {
            Asks::Adjust(-ui.total_frames_in_cycle)
        } else if step == 1 {
            Asks::Adjust(-1)
        } else if step == 2 {
            Asks::Reset
        } else if step == 3 {
            Asks::Adjust(1)
        } else if step == 4 {
            Asks::Adjust(ui.total_frames_in_cycle as int)
        } else if step == 5 {
            Asks::UndoReset
        } else {
            Asks::Nothing
        },
        MenuAction::About => Asks::Nothing,
        MenuAction::CancelCalibration => Asks::Nothing,
        MenuAction::Exit => Asks::Exit,
    }
}

/// The menu closes after this.
pub open spec fn closes(action: MenuAction) -> bool {
    action is NewProfile || action is SelectProfile || action is About
        || action is CancelCalibration || action is Exit
}

/// The page that opens: that of a newer version, or that of the project.
pub open spec fn page_opened(action: MenuAction, ui: UiSnapshot) -> Option<Seq<char>> {
    if action is About {
        match ui.update_notice {
            Some(notice) => Some(notice.html_url@),
            None => Some(ABOUT_PAGE_URL@),
        }
    } else {
        None
    }
}

/// What becomes of the shared state: the display and the scale take effect at once, and a
/// calibration that runs is to stop before the program can end.
pub open spec fn changes(before: SharedAppState, after: SharedAppState, action: MenuAction) -> bool {
    match action {
        MenuAction::SetDisplay(index) => shown_anew(before, after) && after.inner.ui == (UiSnapshot {
            display_mode: mode_at(index),
            ..before.inner.ui
        }) && after.inner.api == before.inner.api,
        MenuAction::SetScale(index) => shown_anew(before, after) && after.inner.ui == (UiSnapshot {
            overlay_scale_pct: percent_at(index),
            ..before.inner.ui
        }) && after.inner.api == before.inner.api,
        MenuAction::CancelCalibration => after == (SharedAppState {
            cancel_calibration: true,
            ..before
        }),
        MenuAction::Exit => after == (SharedAppState { cancel_calibration: true, ..before }),
        _ => after == before,
    }
}

fn find_profile(ui: &UiSnapshot, index: i32) -> (filename: Option<String>)
    ensures
        opt_view(filename) == profile_at(*ui, index),
{
    if index >= 0 && (index as usize) < ui.profiles.len() {
        Some(ui.profiles[index as usize].filename.clone())
    } else {
        None
    }
}

fn timer_command(step: i32, cycle: i32) -> (command: Option<UiCommand>)
    requires
        step == 0 ==> cycle > i32::MIN,
    ensures
        forall|ui: UiSnapshot|
            ui.total_frames_in_cycle == cycle ==> asks(command) == #[trigger] asked_in_menu(
                MenuAction::Timer(step),
                ui,
            ),
{
    if step == 0 {
        Some(UiCommand::AdjustTimer { frames: -cycle })
    } else if step == 1 {
        Some(UiCommand::AdjustTimer { frames: -1 })
    } else if step == 2 {
        Some(UiCommand::ResetTimer)
    } else if step == 3 {
        Some(UiCommand::AdjustTimer { frames: 1 })
    } else if step == 4 {
        Some(UiCommand::AdjustTimer { frames: cycle })
    } else if step == 5 {
        Some(UiCommand::UndoResetTimer)
    } else {
        None
    }
}

/// Carries out what the user does in the menu.
pub fn menu_action(state: &mut SharedAppState, action: MenuAction) -> (outcome: MenuOutcome)
    requires
        action == MenuAction::Timer(0) ==> old(state).inner.ui.total_frames_in_cycle > i32::MIN,
    ensures
        asks(outcome.command) == asked_in_menu(action, old(state).inner.ui),
        opt_view(outcome.page) == page_opened(action, old(state).inner.ui),
        outcome.close == closes(action),
        changes(*old(state), *final(state), action),
{
    match action {
        MenuAction::NewProfile => MenuOutcome {
            command: Some(UiCommand::PrepareCalibration),
            page: None,
            close: true,
        },
        MenuAction::SelectProfile(index) => {
            let command = match find_profile(&state.inner.ui, index) {
                Some(filename) => Some(UiCommand::UseProfile { filename }),
                None => None,
            };
            MenuOutcome { command, page: None, close: true }
        },
        MenuAction::CommitRename(index, name) => {
            let new_base = text::trim(&name);
            let command = if new_base.as_str().is_empty() {
                None
            } else {
                match find_profile(&state.inner.ui, index) {
                    Some(old) => Some(UiCommand::RenameProfile { old, new_base }),
                    None => None,
                }
            };
            MenuOutcome { command, page: None, close: false }
        },
        MenuAction::ConfirmDelete(index) => {
            let command = match find_profile(&state.inner.ui, index) {
                Some(filename) => Some(UiCommand::DeleteProfile { filename }),
                None => None,
            };
            MenuOutcome { command, page: None, close: false }
        },
        MenuAction::SetDisplay(index) => {
            let mode = index_to_display_mode(index);
            state.inner.ui.display_mode = mode;
            state.notify_overlay();
            MenuOutcome { command: Some(UiCommand::SetDisplayMode(mode)), page: None, close: false }
        },
        MenuAction::SetScale(index) => {
            let (multiplier, pct) = index_to_scale(index);
            state.inner.ui.overlay_scale_pct = pct;
            state.notify_overlay();
            MenuOutcome {
                command: Some(UiCommand::SetOverlayScale(multiplier)),
                page: None,
                close: false,
            }
        },
        MenuAction::Timer(step) => {
            let command = timer_command(step, state.inner.ui.total_frames_in_cycle);
            assert(asks(command) == asked_in_menu(MenuAction::Timer(step), state.inner.ui));
            MenuOutcome { command, page: None, close: false }
        },
        MenuAction::About => {
            let page = match &state.inner.ui.update_notice {
                Some(notice) => notice.html_url.clone(),
                None => ABOUT_PAGE_URL.to_owned(),
            };
            MenuOutcome { command: None, page: Some(page), close: true }
        },
        MenuAction::CancelCalibration => {
            state.request_cancel_calibration();
            MenuOutcome { command: None, page: None, close: true }
        },
        MenuAction::Exit => {
            state.request_cancel_calibration();
            MenuOutcome { command: Some(UiCommand::Exit), page: None, close: true }
        },
    }
}

/// Leaving always stops a calibration that runs: otherwise the program would not end.
pub proof fn law_exit_stops_calibration(before: SharedAppState, after: SharedAppState)
    requires
        changes(before, after, MenuAction::Exit),
    ensures
        after.cancel_calibration,
        asked_in_menu(MenuAction::Exit, before.inner.ui) == Asks::Exit,
        closes(MenuAction::Exit),
{
}

/// A choice of display or scale shows in the menu at once.
pub proof fn law_settings_take_effect_at_once(
    before: SharedAppState,
    after: SharedAppState,
    index: i32,
)
    requires
        0 <= index <= 3,
    ensures
        index <= 2 && changes(before, after, MenuAction::SetDisplay(index)) ==> selections_of(
            after.inner.ui,
        ).display_mode == index,
        changes(before, after, MenuAction::SetScale(index)) ==> selections_of(
            after.inner.ui,
        ).scale_index == index,
{
}

/// Choosing a line of the menu means the profile on that line: to use it, to rename it to what was
/// typed, or to delete it. A line that is not there, or a name of white space alone, means nothing.
pub proof fn law_lines_mean_their_profiles(ui: UiSnapshot, index: i32, name: String)
    ensures
        0 <= index < ui.profiles@.len() ==> {
            let filename = ui.profiles@[index as int].filename@;
            &&& asked_in_menu(MenuAction::SelectProfile(index), ui) == Asks::Use(filename)
            &&& asked_in_menu(MenuAction::ConfirmDelete(index), ui) == Asks::Delete(filename)
            &&& trimmed(name@).len() > 0 ==> asked_in_menu(
                MenuAction::CommitRename(index, name),
                ui,
            ) == Asks::Rename(filename, trimmed(name@))
        },
        !(0 <= index < ui.profiles@.len()) ==> {
            &&& asked_in_menu(MenuAction::SelectProfile(index), ui) is Nothing
            &&& asked_in_menu(MenuAction::ConfirmDelete(index), ui) is Nothing
            &&& asked_in_menu(MenuAction::CommitRename(index, name), ui) is Nothing
        },
        trimmed(name@).len() == 0 ==> asked_in_menu(MenuAction::CommitRename(index, name), ui)
            is Nothing,
{
}

/// The buttons for the timer: back a cycle, back a frame, reset, forward a frame, forward a cycle,
/// undo the reset. Each step back undoes the step forward across from it.
pub proof fn law_timer_buttons_step_both_ways(ui: UiSnapshot)
    ensures
        asked_in_menu(MenuAction::Timer(1), ui) == Asks::Adjust(-1),
        asked_in_menu(MenuAction::Timer(3), ui) == Asks::Adjust(1),
        asked_in_menu(MenuAction::Timer(2), ui) is Reset,
        asked_in_menu(MenuAction::Timer(5), ui) is UndoReset,
        asked_in_menu(MenuAction::Timer(0), ui) == Asks::Adjust(-ui.total_frames_in_cycle),
        asked_in_menu(MenuAction::Timer(4), ui) == Asks::Adjust(ui.total_frames_in_cycle as int),
        forall|step: i32|
            !(0 <= step <= 5) ==> #[trigger] asked_in_menu(MenuAction::Timer(step), ui) is Nothing,
{
}

/// A command says which wish it is, and no two commands that differ say the same.
pub proof fn law_commands_say_what_they_ask(frames: i32, filename: String, mode: FrameDisplayMode)
    ensures
        asks(None) is Nothing,
        asks(Some(UiCommand::AdjustTimer { frames })) == Asks::Adjust(frames as int),
        asks(Some(UiCommand::UseProfile { filename })) == Asks::Use(filename@),
        asks(Some(UiCommand::DeleteProfile { filename })) == Asks::Delete(filename@),
        asks(Some(UiCommand::SetDisplayMode(mode))) == Asks::Display(mode),
        asks(Some(UiCommand::PrepareCalibration)) is PrepareCalibration,
        asks(Some(UiCommand::ResetTimer)) is Reset,
        asks(Some(UiCommand::UndoResetTimer)) is UndoReset,
        asks(Some(UiCommand::Exit)) is Exit,
{
}

/// The menu stays open while profiles are renamed or deleted, settings are tried and the timer is
/// stepped; it closes where the user goes on elsewhere.
pub proof fn law_menu_closes_where_the_user_goes_on(action: MenuAction)
    ensures
        closes(action) <==> !(action is CommitRename || action is ConfirmDelete || action
            is SetDisplay || action is SetScale || action is Timer),
{
}

/// Asking about the program opens the page of a newer version where there is one, and else the page
/// of the project; nothing else opens a page.
pub proof fn law_about_opens_the_right_page(action: MenuAction, ui: UiSnapshot)
    ensures
        page_opened(action, ui) is Some <==> action is About,
        action is About && ui.update_notice is Some ==> page_opened(action, ui) == Some(
            ui.update_notice->0.html_url@,
        ),
        action is About && ui.update_notice is None ==> page_opened(action, ui) == Some(
            ABOUT_PAGE_URL@,
        ),
{
}

/// What is done in the menu changes no more than it says: a new way to number frames or a new scale
/// shows at once, and only leaving and stopping ask a calibration to stop.
pub proof fn law_menu_changes_only_what_was_chosen(
    before: SharedAppState,
    after: SharedAppState,
    action: MenuAction,
)
    requires
        changes(before, after, action),
    ensures
        after.inner.api == before.inner.api,
        after.api_history == before.api_history,
        after.inner.ui.time_str == before.inner.ui.time_str,
        after.inner.ui.profiles == before.inner.ui.profiles,
        action matches MenuAction::SetDisplay(index) ==> after.inner.ui.display_mode == mode_at(
            index,
        ) && asked_in_menu(action, before.inner.ui) == Asks::Display(after.inner.ui.display_mode),
        !(action is SetDisplay) ==> after.inner.ui.display_mode == before.inner.ui.display_mode,
        action matches MenuAction::SetScale(index) ==> after.inner.ui.overlay_scale_pct
            == percent_at(index),
        !(action is SetScale) ==> after.inner.ui.overlay_scale_pct
            == before.inner.ui.overlay_scale_pct,
        action is Exit || action is CancelCalibration ==> after.cancel_calibration,
        !(action is Exit || action is CancelCalibration) ==> after.cancel_calibration
            == before.cancel_calibration,
{
}

/// The four scales of the menu, and the three ways to number frames, in their order.
pub proof fn law_menu_offers_in_order()
    ensures
        percent_at(0) == 75 && percent_at(1) == 100 && percent_at(2) == 125 && percent_at(3) == 150,
        mode_at(0) == FrameDisplayMode::ZeroToNMinusOne,
        mode_at(1) == FrameDisplayMode::ZeroToN,
        mode_at(2) == FrameDisplayMode::OneToN,
        forall|index: int| 0 <= index < 3 ==> #[trigger] multiplier_at(index as i32).bits
            < multiplier_at((index + 1) as i32).bits,
        multiplier_at(1).bits == ONE_BITS,
{
}

/// The menu says of the state what it is: what is numbered how, how large the overlay is, whether
/// there is a timer to step and a reset to undo, and whether there is a newer version. Its list
/// shows the profiles as they are, and none while a calibration runs.
pub proof fn law_menu_shows_the_state(ui: UiSnapshot, i: int)
    requires
        0 <= i < ui.profiles@.len(),
    ensures
        selections_of(ui).calibrating <==> ui.mode == OverlayMode::Calibrating,
        selections_of(ui).timer_enabled <==> ui.active_profile is Some,
        selections_of(ui).undo_reset_enabled == ui.can_undo_reset,
        selections_of(ui).update_available <==> ui.update_notice is Some,
        mode_at(selections_of(ui).display_mode) == ui.display_mode,
        ui.mode == OverlayMode::Calibrating ==> listed_profiles(ui).len() == 0,
        ui.mode != OverlayMode::Calibrating ==> {
            let rows = rows_of_profiles(listed_profiles(ui));
            &&& rows.len() == ui.profiles@.len()
            &&& rows[i].name == ui.profiles@[i].basename@
            &&& rows[i].frames == ui.profiles@[i].total_frames_str@
            &&& rows[i].active == ui.profiles@[i].is_active
        },
{
}

/// The list of profiles of the open menu was brought up to date.
pub open spec fn is_synced(
    before: MenuState,
    after: MenuState,
    profiles: Seq<ProfileMenuItem>,
    update: MenuUpdate,
) -> bool {
    &&& after.profiles_sig@ == profiles_text(profiles)
    &&& if before.profiles_sig@ == profiles_text(profiles) {
        after == before && update.rows is None && update.resize is None
    } else {
        &&& after.profile_count == profiles.len()
        &&& update.rows matches Some(rows) && profile_row_views(rows@) == rows_of_profiles(profiles)
        &&& update.resize == (if before.profile_count != profiles.len() {
            Some(profiles.len() as usize)
        } else {
            None
        })
    }
}

/// A list that is up to date is not made again: bringing it up to date twice changes it once. Where
/// it is made anew, it has the profiles there are, and the menu changes its size with their number
/// alone.
pub proof fn law_list_is_made_anew_only_when_it_changes(
    before: MenuState,
    after: MenuState,
    again: MenuState,
    profiles: Seq<ProfileMenuItem>,
    update: MenuUpdate,
    second: MenuUpdate,
)
    requires
        is_synced(before, after, profiles, update),
        is_synced(after, again, profiles, second),
    ensures
        second.rows is None && second.resize is None && again == after,
        update.rows matches Some(rows) ==> profile_row_views(rows@) == rows_of_profiles(profiles)
            && after.profile_count == profiles.len(),
        update.resize matches Some(n) ==> update.rows is Some && n == profiles.len() && n
            != before.profile_count,
        update.rows is None ==> after == before,
{
}

/// While a calibration runs no profiles are listed; otherwise all of them are.
pub proof fn law_no_profiles_while_calibrating(ui: UiSnapshot)
    ensures
        ui.mode == OverlayMode::Calibrating ==> listed_profiles(ui).len() == 0,
        ui.mode != OverlayMode::Calibrating ==> listed_profiles(ui) == ui.profiles@,
{
}

} // verus!
