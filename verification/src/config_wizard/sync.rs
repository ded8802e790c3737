//! What the wizard shows: the list of targets, a preview, and where it stands.
use crate::config_wizard::preview;
use crate::config_wizard::preview::{at_least_one, can_scale, fitted_size, preview_bytes};
use crate::config_wizard::{PreviewToken, WizardCore};
use crate::i18n::{filled_in, pairs, translated, value_views, I18n};
use crate::target_discovery::{
    class_rank, list_line, LatencyClass, PreviewFrame, TargetCandidate,
};
use crate::text;
use crate::text::{opt_view, views};
use crate::ui_state::UpdateNotice;
use crate::update_check::without_marks;
use vstd::prelude::*;

verus! {

/// The height of the window without its panel, in units of the design.
pub const WIZARD_LOGICAL_H: u32 = 443;

/// The width of the window.
pub const WIZARD_LOGICAL_W: u32 = 560;

/// What the panel with the recording options adds to the height.
pub const WIZARD_DEBUG_RECORDING_H: u32 = 150;

/// What the panel adds when it also describes a target.
pub const WIZARD_DEBUG_MANUAL_H: u32 = 300;

/// The height of the window.
pub fn wizard_logical_height(debug_expanded: bool, manual_mode: bool) -> (height: u32)
    ensures
        height == WIZARD_LOGICAL_H + (if !debug_expanded {
            0
        } else if manual_mode {
            WIZARD_DEBUG_MANUAL_H
        } else {
            WIZARD_DEBUG_RECORDING_H
        }),
{
    if !debug_expanded {
        WIZARD_LOGICAL_H
    } else if manual_mode {
        WIZARD_LOGICAL_H + WIZARD_DEBUG_MANUAL_H
    } else {
        WIZARD_LOGICAL_H + WIZARD_DEBUG_RECORDING_H
    }
}

/// A line of the list.
#[derive(Debug, PartialEq, Eq)]
pub struct TargetRow {
    pub name: String,
    pub detail: String,
    pub latency: String,
    pub latency_class: i32,
    pub error: bool,
    pub selected: bool,
}

#[verifier::ext_equal]
pub struct RowView {
    pub name: Seq<char>,
    pub detail: Seq<char>,
    pub latency: Seq<char>,
    pub latency_class: i32,
    pub error: bool,
    pub selected: bool,
}

impl View for TargetRow {
    type V = RowView;

    open spec fn view(&self) -> RowView {
        RowView {
            name: self.name@,
            detail: self.detail@,
            latency: self.latency@,
            latency_class: self.latency_class,
            error: self.error,
            selected: self.selected,
        }
    }
}

pub open spec fn row_views(rows: Seq<TargetRow>) -> Seq<RowView> {
    rows.map_values(|row: TargetRow| row@)
}

pub open spec fn class_index(class: LatencyClass) -> i32 {
    match class {
        LatencyClass::PaleGreen => 0,
        LatencyClass::Green => 1,
        LatencyClass::Yellow => 2,
        LatencyClass::Orange => 3,
        LatencyClass::Red => 4,
        LatencyClass::Unknown => 5,
    }
}

fn latency_class_index(class: LatencyClass) -> (index: i32)
    ensures
        index == class_index(class),
{
    match class {
        LatencyClass::PaleGreen => 0,
        LatencyClass::Green => 1,
        LatencyClass::Yellow => 2,
        LatencyClass::Orange => 3,
        LatencyClass::Red => 4,
        LatencyClass::Unknown => 5,
    }
}

/// How a candidate is listed, with its latency as it is written.
pub open spec fn row_of(
    candidate: TargetCandidate,
    latency_text: Seq<char>,
    selected: bool,
) -> RowView {
    RowView {
        name: candidate.name@,
        detail: candidate.detail@,
        latency: match candidate.error {
            Some(error) => error@,
            None => latency_text,
        },
        latency_class: class_index(candidate.latency_class),
        error: candidate.error is Some,
        selected,
    }
}

pub fn target_row(candidate: &TargetCandidate, latency_text: &str, selected: bool) -> (row:
    TargetRow)
    ensures
        row@ == row_of(*candidate, latency_text@, selected),
{
    let latency = match &candidate.error {
        Some(error) => error.clone(),
        None => latency_text.to_owned(),
    };
    TargetRow {
        name: candidate.name.clone(),
        detail: candidate.detail.clone(),
        latency,
        latency_class: latency_class_index(candidate.latency_class),
        error: candidate.error.is_some(),
        selected,
    }
}

/// The list.
pub open spec fn rows_of(
    candidates: Seq<TargetCandidate>,
    latency_texts: Seq<Seq<char>>,
    selected: Option<usize>,
) -> Seq<RowView> {
    Seq::new(
        candidates.len(),
        |i: int| row_of(candidates[i], latency_texts[i], is_selected(selected, i)),
    )
}

pub open spec fn is_selected(selected: Option<usize>, i: int) -> bool {
    match selected {
        Some(index) => index == i,
        None => false,
    }
}

/// What a line of the list shows, in one text: two lists differ if what they show differs.
pub open spec fn content_of(
    candidate: TargetCandidate,
    latency_text: Seq<char>,
    selected: bool,
) -> Seq<char> {
    candidate.fingerprint@ + seq!['\u{1}'] + list_line(candidate, latency_text) + seq![
        if candidate.error is Some {
            'E'
        } else {
            'o'
        },
        if selected {
            '*'
        } else {
            '.'
        },
        '\u{2}',
    ]
}

/// What the list shows, in one text.
pub open spec fn contents(
    candidates: Seq<TargetCandidate>,
    latency_texts: Seq<Seq<char>>,
    selected: Option<usize>,
    n: int,
) -> Seq<char>
    decreases n,
{
    if n <= 0 {
        Seq::empty()
    } else {
        contents(candidates, latency_texts, selected, n - 1) + content_of(
            candidates[n - 1],
            latency_texts[n - 1],
            is_selected(selected, n - 1),
        )
    }
}

/// Which candidates the list shows, in one text.
pub open spec fn structure(candidates: Seq<TargetCandidate>, n: int) -> Seq<char>
    decreases n,
{
    if n <= 0 {
        Seq::empty()
    } else {
        structure(candidates, n - 1) + candidates[n - 1].fingerprint@ + seq!['\u{2}']
    }
}

fn rows_signature(
    candidates: &Vec<TargetCandidate>,
    latency_texts: &Vec<String>,
    selected: Option<usize>,
) -> (sig: String)
    requires
        latency_texts@.len() == candidates@.len(),
    ensures
        sig@ == contents(
            candidates@,
            views(latency_texts@),
            selected,
            candidates@.len() as int,
        ),
{
    let mut sig = String::new();
    let mut i: usize = 0;
    while i < candidates.len()
        invariant
            i <= candidates@.len() == latency_texts@.len(),
            sig@ == contents(candidates@, views(latency_texts@), selected, i as int),
        decreases candidates@.len() - i,
    {
        let ghost before = sig@;
        let candidate = &candidates[i];
        let chosen = match selected {
            Some(index) => index == i,
            None => false,
        };
        sig.append(&candidate.fingerprint);
        sig.push('\u{1}');
        sig.append(&candidate.list_label(&latency_texts[i]));
        sig.push(
            if candidate.error.is_some() {
                'E'
            } else {
                'o'
            },
        );
        sig.push(
            if chosen {
                '*'
            } else {
                '.'
            },
        );
        sig.push('\u{2}');
        proof {
            assert(views(latency_texts@)[i as int] == latency_texts@[i as int]@);
            assert(sig@ =~= before + content_of(
                *candidate,
                latency_texts@[i as int]@,
                is_selected(selected, i as int),
            ));
        }
        i += 1;
    }
    sig
}

fn rows_struct_signature(candidates: &Vec<TargetCandidate>) -> (sig: String)
    ensures
        sig@ == structure(candidates@, candidates@.len() as int),
{
    let mut sig = String::new();
    let mut i: usize = 0;
    while i < candidates.len()
        invariant
            i <= candidates@.len(),
            sig@ == structure(candidates@, i as int),
        decreases candidates@.len() - i,
    {
        let ghost before = sig@;
        sig.append(&candidates[i].fingerprint);
        sig.push('\u{2}');
        assert(sig@ =~= before + candidates@[i as int].fingerprint@ + seq!['\u{2}']);
        i += 1;
    }
    sig
}

/// What to do with the list.
#[derive(Debug)]
pub enum RowsUpdate {
    /// It shows what it should.
    Keep,
    /// Its lines are those of other candidates.
    Replace(Vec<TargetRow>),
    /// Its lines are those of the same candidates.
    Refresh(Vec<TargetRow>),
}

/// `update` brings the list up to date with the candidates, and `after` remembers what it shows.
pub open spec fn brings_rows(
    before: WizardCore,
    after: WizardCore,
    latency_texts: Seq<Seq<char>>,
    update: RowsUpdate,
) -> bool {
    let n = before.candidates@.len() as int;
    let shown = contents(before.candidates@, latency_texts, before.selected_index, n);
    let rows = rows_of(before.candidates@, latency_texts, before.selected_index);
    &&& match update {
        RowsUpdate::Keep => opt_view(before.rows_content_sig) == Some(shown),
        RowsUpdate::Replace(list) => opt_view(before.rows_content_sig) != Some(shown)
            && before.rows_struct_sig@ != structure(before.candidates@, n) && row_views(list@)
            == rows,
        RowsUpdate::Refresh(list) => opt_view(before.rows_content_sig) != Some(shown)
            && before.rows_struct_sig@ == structure(before.candidates@, n) && row_views(list@)
            == rows,
    }
    &&& opt_view(after.rows_content_sig) == Some(shown)
    &&& update !is Keep ==> after.rows_struct_sig@ == structure(before.candidates@, n)
    &&& after == (WizardCore {
        rows_content_sig: after.rows_content_sig,
        rows_struct_sig: after.rows_struct_sig,
        ..before
    })
    &&& update is Keep ==> after == before
}

/// What to do with the list, so that it shows the candidates. Lines are replaced only where the
/// candidates have changed.
pub fn sync_rows(core: &mut WizardCore, latency_texts: &Vec<String>) -> (update: RowsUpdate)
    requires
        latency_texts@.len() == old(core).candidates@.len(),
    ensures
        brings_rows(*old(core), *final(core), views(latency_texts@), update),
{
    let content = rows_signature(&core.candidates, latency_texts, core.selected_index);
    if let Some(shown) = &core.rows_content_sig {
        if text::same(shown, &content) {
            return RowsUpdate::Keep;
        }
    }
    let ghost want = rows_of(core.candidates@, views(latency_texts@), core.selected_index);
    let mut rows: Vec<TargetRow> = Vec::new();
    let mut i: usize = 0;
    assert(want.take(0) =~= Seq::<RowView>::empty());
    assert(row_views(rows@) =~= Seq::<RowView>::empty());
    while i < core.candidates.len()
        invariant
            i <= core.candidates@.len() == latency_texts@.len(),
            want == rows_of(core.candidates@, views(latency_texts@), core.selected_index),
            row_views(rows@) == want.take(i as int),
        decreases core.candidates@.len() - i,
    {
        let ghost before = row_views(rows@);
        let selected = match core.selected_index {
            Some(index) => index == i,
            None => false,
        };
        let row = target_row(&core.candidates[i], &latency_texts[i], selected);
        proof {
            assert(views(latency_texts@)[i as int] == latency_texts@[i as int]@);
            assert(want[i as int] == row@);
            assert(want.take(i as int + 1) =~= want.take(i as int).push(want[i as int]));
            assert(row_views(rows@.push(row)) =~= before.push(row@));
        }
        rows.push(row);
        i += 1;
    }
    assert(want.take(i as int) =~= want);
    let structure = rows_struct_signature(&core.candidates);
    let same = text::same(&core.rows_struct_sig, &structure);
    core.rows_content_sig = Some(content);
    if same {
        RowsUpdate::Refresh(rows)
    } else {
        core.rows_struct_sig = structure;
        RowsUpdate::Replace(rows)
    }
}

/// The preview that should be shown: of the selected candidate, where it has one.
pub open spec fn wanted_token(core: WizardCore, address: usize) -> Option<PreviewToken> {
    match core.selected() {
        Some(candidate) => match candidate.preview {
            Some(preview) => Some(
                PreviewToken {
                    index: core.selected_index->0,
                    address,
                    size: preview.data@.len() as usize,
                },
            ),
            None => None,
        },
        None => None,
    }
}

/// What to do with the preview.
#[derive(Debug)]
pub enum PreviewUpdate {
    Keep,
    Hide,
    Show { width: u32, height: u32, bytes: Vec<u8> },
}

pub open spec fn preview_shown(frame: PreviewFrame, cap_w: int, cap_h: int) -> Option<
    (int, int, Seq<u8>),
> {
    let (w, h) = fitted_size(
        frame.width as int,
        frame.height as int,
        at_least_one(cap_w),
        at_least_one(cap_h),
    );
    if frame.width > 0 && frame.height > 0 && can_scale(frame, w, h) {
        Some((w, h, preview_bytes(frame, w, h)))
    } else {
        None
    }
}

pub open spec fn selected_preview(core: WizardCore, cap_w: int, cap_h: int) -> Option<
    (int, int, Seq<u8>),
> {
    match core.selected() {
        Some(candidate) => match candidate.preview {
            Some(frame) => preview_shown(frame, cap_w, cap_h),
            None => None,
        },
        None => None,
    }
}

/// `update` brings the preview up to date with the selected candidate, and `after` remembers what it
/// shows. While a target is described by hand, there is none.
pub open spec fn brings_preview(
    before: WizardCore,
    after: WizardCore,
    address: usize,
    cap_w: int,
    cap_h: int,
    update: PreviewUpdate,
) -> bool {
    if before.manual_mode {
        update is Hide && after == before
    } else {
        let wanted = wanted_token(before, address);
        &&& after == (WizardCore { preview_token: wanted, ..before })
        &&& match update {
            PreviewUpdate::Keep => before.preview_token == wanted,
            PreviewUpdate::Hide => before.preview_token != wanted && selected_preview(
                before,
                cap_w,
                cap_h,
            ) is None,
            PreviewUpdate::Show { width, height, bytes } => before.preview_token != wanted
                && selected_preview(before, cap_w, cap_h) == Some(
                (width as int, height as int, bytes@),
            ),
        }
    }
}

/// What to do with the preview, so that it shows the selected candidate. `address` tells its
/// pictures apart: it is made anew only for a new picture or another candidate.
pub fn sync_preview(core: &mut WizardCore, address: usize, cap_w: u32, cap_h: u32) -> (update:
    PreviewUpdate)
    ensures
        brings_preview(*old(core), *final(core), address, cap_w as int, cap_h as int, update),
{
    if core.manual_mode {
        return PreviewUpdate::Hide;
    }
    let mut image: Option<(u32, u32, Vec<u8>)> = None;
    let mut token: Option<PreviewToken> = None;
    if let Some(index) = core.selected_index {
        if index < core.candidates.len() {
            if let Some(frame) = &core.candidates[index].preview {
                token = Some(PreviewToken { index, address, size: frame.data.len() });
                image = preview::preview_image(frame, cap_w, cap_h);
            }
        }
    }
    let same = match (token, core.preview_token) {
        (Some(a), Some(b)) => a.index == b.index && a.address == b.address && a.size == b.size,
        (None, None) => true,
        _ => false,
    };
    core.preview_token = token;
    if same {
        return PreviewUpdate::Keep;
    }
    match image {
        Some((width, height, bytes)) => PreviewUpdate::Show { width, height, bytes },
        None => PreviewUpdate::Hide,
    }
}

/// The text under `key`.
pub open spec fn tr(i18n: I18n, key: Seq<char>) -> Seq<char> {
    translated(pairs(i18n.values@), key)
}

/// The heading: with the latency of the selected candidate, where it is known; another one while a
/// target is described by hand.
pub open spec fn is_header(
    header: Seq<char>,
    core: WizardCore,
    i18n: I18n,
    latency_text: Seq<char>,
) -> bool {
    if core.manual_mode {
        header == tr(i18n, "config.selector.manual_header"@)
    } else {
        match core.selected() {
            Some(candidate) => if candidate.latency is Some {
                header == filled_in(
                    tr(i18n, "config.selector.header_with_latency"@),
                    seq![("latency"@, latency_text)],
                )
            } else {
                header == tr(i18n, "config.selector.header"@)
            },
            None => header == tr(i18n, "config.selector.header"@),
        }
    }
}

/// The heading over the list. `latency_text` is the latency of the selected candidate as it is
/// written.
pub fn header_text(core: &WizardCore, i18n: &I18n, latency_text: &str) -> (header: String)
    ensures
        is_header(header@, *core, *i18n, latency_text@),
{
    if core.manual_mode {
        return i18n.tr("config.selector.manual_header");
    }
    if let Some(candidate) = core.selected_candidate() {
        if candidate.latency.is_some() {
            let values: Vec<(&str, String)> = vec![("latency", latency_text.to_owned())];
            assert(value_views(values@) =~= seq![("latency"@, latency_text@)]);
            return i18n.tr_with("config.selector.header_with_latency", &values);
        }
    }
    i18n.tr("config.selector.header")
}

/// The status line, and whether it tells of an error. While a target is described by hand it tells
/// what is wrong with the description, or gives a hint.
pub open spec fn is_status(
    status: Seq<char>,
    is_error: bool,
    core: WizardCore,
    i18n: I18n,
    latency_text: Seq<char>,
) -> bool {
    if core.manual_mode {
        match core.manual_error {
            Some(error) => is_error && status == error@,
            None => !is_error && status == tr(i18n, "config.selector.manual_hint"@),
        }
    } else {
        match core.selected() {
            None => !is_error && status == tr(
                i18n,
                if core.candidates@.len() == 0 {
                    "config.selector.no_targets"@
                } else {
                    "config.selector.no_selection"@
                },
            ),
            Some(candidate) => match candidate.error {
                Some(error) => is_error && status == filled_in(
                    tr(i18n, "config.selector.selected_error"@),
                    seq![("error"@, error@)],
                ),
                None => if candidate.preview is None {
                    !is_error && status == tr(i18n, "config.selector.error.waiting_probe"@)
                } else {
                    !is_error && status == filled_in(
                        tr(i18n, "config.selector.selected_ok"@),
                        seq![("name"@, candidate.name@), ("latency"@, latency_text)],
                    )
                },
            },
        }
    }
}

/// The status line under the list, and whether it tells of an error.
pub fn status_text(core: &WizardCore, i18n: &I18n, latency_text: &str) -> (r: (String, bool))
    ensures
        is_status((r.0)@, r.1, *core, *i18n, latency_text@),
{
    if core.manual_mode {
        return match &core.manual_error {
            Some(error) => (error.clone(), true),
            None => (i18n.tr("config.selector.manual_hint"), false),
        };
    }
    match core.selected_candidate() {
        None => if core.candidates.len() == 0 {
            (i18n.tr("config.selector.no_targets"), false)
        } else {
            (i18n.tr("config.selector.no_selection"), false)
        },
        Some(candidate) => match &candidate.error {
            Some(error) => {
                let values: Vec<(&str, String)> = vec![("error", error.clone())];
                assert(value_views(values@) =~= seq![("error"@, error@)]);
                (i18n.tr_with("config.selector.selected_error", &values), true)
            },
            None => if candidate.preview.is_none() {
                (i18n.tr("config.selector.error.waiting_probe"), false)
            } else {
                let values: Vec<(&str, String)> = vec![
                    ("name", candidate.name.clone()),
                    ("latency", latency_text.to_owned()),
                ];
                assert(value_views(values@) =~= seq![
                    ("name"@, candidate.name@),
                    ("latency"@, latency_text@),
                ]);
                (i18n.tr_with("config.selector.selected_ok", &values), false)
            },
        },
    }
}

/// What is said of the list once it is up to date: whether it is empty, and what stands in its place
/// then.
#[derive(Debug, PartialEq, Eq)]
pub struct ListState {
    pub empty: bool,
    pub caption: String,
}

pub fn list_state(core: &WizardCore, i18n: &I18n) -> (list: ListState)
    ensures
        list.empty == (core.candidates@.len() == 0),
        list.caption@ == tr(*i18n, "config.selector.no_targets"@),
{
    ListState {
        empty: core.candidates.len() == 0,
        caption: i18n.tr("config.selector.no_targets"),
    }
}

/// `core` once its panel is open or not.
pub open spec fn settled(core: WizardCore, debug_expanded: bool) -> WizardCore {
    if !debug_expanded && core.manual_mode {
        WizardCore { manual_mode: false, manual_error: None, preview_token: None, ..core }
    } else {
        core
    }
}

/// Describing a target by hand ends when its panel is closed.
pub fn sync_panel(core: &mut WizardCore, debug_expanded: bool)
    ensures
        *final(core) == settled(*old(core), debug_expanded),
{
    if !debug_expanded && core.manual_mode {
        core.manual_mode = false;
        core.manual_error = None;
        core.preview_token = None;
    }
}

/// What the wizard says of a newer version.
pub open spec fn update_badge(i18n: I18n, notice: UpdateNotice) -> Seq<char> {
    filled_in(
        tr(i18n, "update.badge.wizard"@),
        seq![("version"@, seq!['v'] + without_marks(notice.version@))],
    )
}

pub fn update_text(i18n: &I18n, notice: &UpdateNotice) -> (r: String)
    ensures
        r@ == update_badge(*i18n, *notice),
{
    let chars = text::to_chars(&notice.version);
    let mut i: usize = 0;
    assert(chars@.skip(0) =~= chars@);
    while i < chars.len() && chars[i] == 'v'
        invariant
            i <= chars@.len(),
            without_marks(chars@) == without_marks(chars@.skip(i as int)),
        decreases chars@.len() - i,
    {
        assert(chars@.skip(i as int).drop_first() =~= chars@.skip(i as int + 1));
        i += 1;
    }
    assert(chars@.subrange(i as int, chars@.len() as int) =~= chars@.skip(i as int));
    let mut version = String::new();
    version.push('v');
    version.append(&text::from_char_range(&chars, i, chars.len()));
    assert(version@ =~= seq!['v'] + without_marks(notice.version@));
    let ghost written = version@;
    let values: Vec<(&str, String)> = vec![("version", version)];
    assert(value_views(values@) =~= seq![("version"@, written)]);
    i18n.tr_with("update.badge.wizard", &values)
}

/// What the window tells of itself and of its surroundings.
#[derive(Debug)]
pub struct WizardInputs {
    /// The panel for describing a target is open.
    pub debug_expanded: bool,
    /// The latencies of the candidates as they are written.
    pub latency_texts: Vec<String>,
    /// Tells the pictures of the selected candidate apart.
    pub preview_address: usize,
    pub preview_cap: (u32, u32),
    pub adb_available: bool,
}

/// What the window shows.
#[derive(Debug)]
pub struct WizardShown {
    /// There is a line for describing a target.
    pub manual_row: bool,
    /// That line is marked.
    pub manual_selected: bool,
    /// The list of kinds to describe a target by is closed.
    pub close_kinds: bool,
    pub rows: RowsUpdate,
    /// What is said of the list, where it was brought up to date.
    pub list: Option<ListState>,
    pub preview: PreviewUpdate,
    pub header: String,
    pub status: String,
    pub status_error: bool,
    pub adb_unavailable: bool,
    /// What is said of a newer version.
    pub update: Option<String>,
}

/// The latency of the selected candidate as it is written.
pub open spec fn selected_latency(core: WizardCore, latency_texts: Seq<Seq<char>>) -> Seq<char> {
    match core.selected_index {
        Some(index) => if index < latency_texts.len() {
            latency_texts[index as int]
        } else {
            Seq::empty()
        },
        None => Seq::empty(),
    }
}

/// `shown` is what the window shows of `before`, and `after` remembers it. A target is described by
/// hand only while its panel is open; then its line is marked, there is no preview, and the heading
/// and the status line tell of the description.
pub open spec fn shows_wizard(
    before: WizardCore,
    after: WizardCore,
    i18n: I18n,
    inputs: WizardInputs,
    notice: Option<UpdateNotice>,
    shown: WizardShown,
) -> bool {
    let start = settled(before, inputs.debug_expanded);
    let texts = views(inputs.latency_texts@);
    let listed = WizardCore { preview_token: start.preview_token, ..after };
    let latency = selected_latency(start, texts);
    &&& shown.manual_row == inputs.debug_expanded
    &&& shown.manual_selected == start.manual_mode
    &&& shown.close_kinds == !start.manual_mode
    &&& brings_rows(start, listed, texts, shown.rows)
    &&& match shown.list {
        Some(list) => shown.rows !is Keep && list.empty == (start.candidates@.len() == 0)
            && list.caption@ == tr(i18n, "config.selector.no_targets"@),
        None => shown.rows is Keep,
    }
    &&& brings_preview(
        listed,
        after,
        inputs.preview_address,
        inputs.preview_cap.0 as int,
        inputs.preview_cap.1 as int,
        shown.preview,
    )
    &&& is_header(shown.header@, start, i18n, latency)
    &&& is_status(shown.status@, shown.status_error, start, i18n, latency)
    &&& shown.adb_unavailable == !inputs.adb_available
    &&& opt_view(shown.update) == (match notice {
        Some(notice) => Some(update_badge(i18n, notice)),
        None => None,
    })
}

/// Brings the window up to date.
pub fn sync_to_slint(
    core: &mut WizardCore,
    i18n: &I18n,
    inputs: &WizardInputs,
    notice: &Option<UpdateNotice>,
) -> (shown: WizardShown)
    requires
        inputs.latency_texts@.len() == old(core).candidates@.len(),
    ensures
        shows_wizard(*old(core), *final(core), *i18n, *inputs, *notice, shown),
{
    sync_panel(core, inputs.debug_expanded);
    let ghost start = *core;
    let rows = sync_rows(core, &inputs.latency_texts);
    let ghost listed = *core;
    let list = match rows {
        RowsUpdate::Keep => None,
        _ => Some(list_state(core, i18n)),
    };
    let (cap_w, cap_h) = inputs.preview_cap;
    let preview = sync_preview(core, inputs.preview_address, cap_w, cap_h);
    assert(listed == (WizardCore { preview_token: start.preview_token, ..*core }));
    let latency = match core.selected_index {
        Some(index) => if index < inputs.latency_texts.len() {
            inputs.latency_texts[index].clone()
        } else {
            String::new()
        },
        None => String::new(),
    };
    assert(latency@ =~= selected_latency(start, views(inputs.latency_texts@)));
    let header = header_text(core, i18n, &latency);
    let (status, status_error) = status_text(core, i18n, &latency);
    let update = match notice {
        Some(notice) => Some(update_text(i18n, notice)),
        None => None,
    };
    WizardShown {
        manual_row: inputs.debug_expanded,
        manual_selected: core.manual_mode,
        close_kinds: !core.manual_mode,
        rows,
        list,
        preview,
        header,
        status,
        status_error,
        adb_unavailable: !inputs.adb_available,
        update,
    }
}

/// A target is described by hand only while its panel is open. Then the window marks the line for it,
/// shows no preview and says so in its heading; otherwise it closes the list of kinds.
pub proof fn law_describing_a_target_shows(
    before: WizardCore,
    after: WizardCore,
    i18n: I18n,
    inputs: WizardInputs,
    notice: Option<UpdateNotice>,
    shown: WizardShown,
)
    requires
        shows_wizard(before, after, i18n, inputs, notice, shown),
    ensures
        shown.manual_selected == (before.manual_mode && inputs.debug_expanded),
        shown.manual_selected ==> shown.preview is Hide && shown.header@ == tr(
            i18n,
            "config.selector.manual_header"@,
        ),
        !shown.manual_selected ==> shown.close_kinds,
        after.manual_mode == shown.manual_selected,
{
}

/// Each line of the list shows its own target: its name and detail, its latency or what went wrong,
/// the colour of its latency. The line of the selected target is marked, and no other.
pub proof fn law_lines_show_their_targets(
    candidates: Seq<TargetCandidate>,
    latency_texts: Seq<Seq<char>>,
    selected: Option<usize>,
    i: int,
)
    requires
        0 <= i < candidates.len(),
    ensures
        ({
            let rows = rows_of(candidates, latency_texts, selected);
            &&& rows.len() == candidates.len()
            &&& rows[i].name == candidates[i].name@
            &&& rows[i].detail == candidates[i].detail@
            &&& candidates[i].error is Some ==> rows[i].latency == candidates[i].error->0@
            &&& candidates[i].error is None ==> rows[i].latency == latency_texts[i]
            &&& rows[i].error <==> candidates[i].error is Some
            &&& rows[i].selected <==> selected is Some && selected->0 == i
            &&& rows[i].latency_class == class_rank(candidates[i].latency_class)
        }),
{
}

/// The list is left alone only where it shows what it should; where the targets are the same ones,
/// its lines stay and are filled anew.
pub proof fn law_the_list_is_kept_up_to_date(
    before: WizardCore,
    after: WizardCore,
    latency_texts: Seq<Seq<char>>,
    update: RowsUpdate,
)
    requires
        brings_rows(before, after, latency_texts, update),
    ensures
        update is Keep <==> before.rows_content_sig is Some && before.rows_content_sig->0@
            == contents(
            before.candidates@,
            latency_texts,
            before.selected_index,
            before.candidates@.len() as int,
        ),
        update matches RowsUpdate::Replace(list) ==> row_views(list@) == rows_of(
            before.candidates@,
            latency_texts,
            before.selected_index,
        ),
        update matches RowsUpdate::Refresh(list) ==> row_views(list@) == rows_of(
            before.candidates@,
            latency_texts,
            before.selected_index,
        ),
        after.rows_content_sig is Some,
        after.selected_index == before.selected_index,
        after.candidates == before.candidates,
{
    assert(opt_view(after.rows_content_sig) is Some == after.rows_content_sig is Some);
}

/// The status line tells of an error exactly where there is one: of the selected target, or of the
/// description that the user has typed.
pub proof fn law_status_tells_of_errors(
    status: Seq<char>,
    is_error: bool,
    core: WizardCore,
    i18n: I18n,
    latency_text: Seq<char>,
)
    requires
        is_status(status, is_error, core, i18n, latency_text),
    ensures
        core.manual_mode ==> is_error == core.manual_error is Some,
        core.manual_mode && is_error ==> status == core.manual_error->0@,
        !core.manual_mode ==> is_error == (core.selected() is Some && core.selected()->0.error
            is Some),
        !core.manual_mode && core.candidates@.len() == 0 ==> status == tr(
            i18n,
            "config.selector.no_targets"@,
        ),
        !core.manual_mode && core.selected() is Some && core.selected()->0.error is None
            && core.selected()->0.preview is Some ==> status == filled_in(
            tr(i18n, "config.selector.selected_ok"@),
            seq![("name"@, core.selected()->0.name@), ("latency"@, latency_text)],
        ),
{
}

/// Closing the panel ends the description of a target and forgets what was wrong with it; otherwise
/// nothing changes.
pub proof fn law_closing_the_panel_ends_the_description(core: WizardCore, debug_expanded: bool)
    ensures
        settled(core, debug_expanded).manual_mode == (core.manual_mode && debug_expanded),
        core.manual_mode && !debug_expanded ==> settled(core, debug_expanded).manual_error is None,
        !core.manual_mode || debug_expanded ==> settled(core, debug_expanded) == core,
        settled(core, debug_expanded).candidates == core.candidates,
        settled(core, debug_expanded).selected_index == core.selected_index,
{
}

} // verus!
