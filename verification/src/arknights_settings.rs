//! Settings of the game that it keeps in the registry.
use crate::json;
use crate::json::{json_document, Document, DocumentKind, DocumentView, ItemView, JsonItem};
use crate::number::Real64;
use crate::target_discovery::mumu::member;
use crate::text;
use crate::text::{opt_view, utf16_text};
use vstd::prelude::*;

verus! {

pub const UI_SCALER_FIELD: &'static str = "uiScaler";

pub const CURSOR_SIZE_FIELD: &'static str = "cursorSize";

pub const REGISTRY_SUBKEY: &'static str = "Software\\Hypergryph\\Arknights";

pub const REGISTRY_VALUE: &'static str = "common_setting_h2012961537";

/// The text that `String::from_utf8_lossy` makes of bytes.
pub uninterp spec fn lossy_utf8(bytes: Seq<u8>) -> Seq<char>;

/// `String::from_utf8_lossy`. It is taken on trust that bytes that are UTF-8 are decoded; what
/// becomes of others is left unsaid.
#[verifier::external_body]
fn from_utf8_lossy(bytes: &Vec<u8>) -> (s: String)
    ensures
        s@ == lossy_utf8(bytes@),
        vstd::utf8::valid_utf8(bytes@) ==> s@ == vstd::utf8::decode_utf8(bytes@),
{
    String::from_utf8_lossy(bytes).into_owned()
}

/// The kind of a value in the registry.
#[derive(Clone, Copy, Debug, PartialEq, Eq, Structural)]
pub enum RegistryKind {
    Text,
    Binary,
    Other,
}

/// Pairs of bytes as numbers, the lower byte first.
pub open spec fn units_of(bytes: Seq<u8>) -> Seq<u16> {
    Seq::new(bytes.len() / 2, |i: int| (bytes[2 * i] + bytes[2 * i + 1] * 256) as u16)
}

/// What stands before the first zero.
pub open spec fn before_zero_units(units: Seq<u16>) -> Seq<u16>
    decreases units.len(),
{
    if units.len() == 0 || units[0] == 0 {
        Seq::empty()
    } else {
        seq![units[0]] + before_zero_units(units.drop_first())
    }
}

/// What stands before the first zero.
pub open spec fn before_zero(bytes: Seq<u8>) -> Seq<u8>
    decreases bytes.len(),
{
    if bytes.len() == 0 || bytes[0] == 0 {
        Seq::empty()
    } else {
        seq![bytes[0]] + before_zero(bytes.drop_first())
    }
}

proof fn lemma_before_zero_units(units: Seq<u16>, n: int)
    requires
        0 <= n <= units.len(),
        forall|i: int| 0 <= i < n ==> units[i] != 0,
        n < units.len() ==> units[n] == 0,
    ensures
        before_zero_units(units) == units.take(n),
    decreases units.len(),
{
    if n > 0 {
        let rest = units.drop_first();
        assert forall|i: int| 0 <= i < n - 1 implies rest[i] != 0 by {
            assert(rest[i] == units[i + 1]);
        }
        lemma_before_zero_units(rest, n - 1);
        assert(units.take(n) =~= seq![units[0]] + rest.take(n - 1));
    } else {
        assert(units.take(0) =~= Seq::<u16>::empty());
    }
}

proof fn lemma_before_zero(bytes: Seq<u8>, n: int)
    requires
        0 <= n <= bytes.len(),
        forall|i: int| 0 <= i < n ==> bytes[i] != 0,
        n < bytes.len() ==> bytes[n] == 0,
    ensures
        before_zero(bytes) == bytes.take(n),
    decreases bytes.len(),
{
    if n > 0 {
        let rest = bytes.drop_first();
        assert forall|i: int| 0 <= i < n - 1 implies rest[i] != 0 by {
            assert(rest[i] == bytes[i + 1]);
        }
        lemma_before_zero(rest, n - 1);
        assert(bytes.take(n) =~= seq![bytes[0]] + rest.take(n - 1));
    } else {
        assert(bytes.take(0) =~= Seq::<u8>::empty());
    }
}

/// The text of a value, where it holds any.
pub open spec fn registry_text(kind: RegistryKind, bytes: Seq<u8>) -> Option<Seq<char>> {
    match kind {
        RegistryKind::Text => {
            let units = before_zero_units(units_of(bytes));
            if units.len() == 0 {
                None
            } else {
                Some(utf16_text(units))
            }
        },
        RegistryKind::Binary => if before_zero(bytes).len() == 0 {
            None
        } else {
            Some(lossy_utf8(before_zero(bytes)))
        },
        RegistryKind::Other => None,
    }
}

fn decode_utf16_registry_string(bytes: &Vec<u8>) -> (s: Option<String>)
    ensures
        opt_view(s) == registry_text(RegistryKind::Text, bytes@),
{
    let ghost want = units_of(bytes@);
    let mut units: Vec<u16> = Vec::new();
    let size: usize = bytes.len();
    let count: usize = size / 2;
    let mut i: usize = 0;
    while i < count
        invariant
            i <= count == bytes@.len() / 2,
            size == bytes@.len(),
            2 * count <= size,
            want == units_of(bytes@),
            units@ == want.take(i as int),
        decreases count - i,
    {
        let unit: u16 = bytes[2 * i] as u16 + bytes[2 * i + 1] as u16 * 256;
        units.push(unit);
        assert(want.take(i as int + 1) =~= want.take(i as int).push(want[i as int]));
        i += 1;
    }
    assert(want.take(i as int) =~= want);
    let mut n: usize = 0;
    while n < units.len() && units[n] != 0
        invariant
            n <= units@.len(),
            forall|k: int| 0 <= k < n ==> units@[k] != 0,
        decreases units@.len() - n,
    {
        n += 1;
    }
    proof {
        lemma_before_zero_units(units@, n as int);
    }
    if n == 0 {
        None
    } else {
        Some(text::decode_utf16(&units, n))
    }
}

fn decode_utf8_registry_blob(bytes: &Vec<u8>) -> (s: Option<String>)
    ensures
        opt_view(s) == registry_text(RegistryKind::Binary, bytes@),
{
    let mut head: Vec<u8> = Vec::new();
    while head.len() < bytes.len() && bytes[head.len()] != 0
        invariant
            head@.len() <= bytes@.len(),
            head@ == bytes@.take(head@.len() as int),
            forall|k: int| 0 <= k < head@.len() ==> bytes@[k] != 0,
        decreases bytes@.len() - head@.len(),
    {
        let ghost before = head@;
        head.push(bytes[head.len()]);
        assert(head@ =~= bytes@.take(head@.len() as int));
    }
    proof {
        lemma_before_zero(bytes@, head@.len() as int);
    }
    if head.len() == 0 {
        None
    } else {
        Some(from_utf8_lossy(&head))
    }
}

/// The text of a value in the registry, where it holds any.
pub fn decode_registry_value(kind: RegistryKind, bytes: &Vec<u8>) -> (s: Option<String>)
    ensures
        opt_view(s) == registry_text(kind, bytes@),
{
    match kind {
        RegistryKind::Text => decode_utf16_registry_string(bytes),
        RegistryKind::Binary => decode_utf8_registry_blob(bytes),
        RegistryKind::Other => None,
    }
}

/// The number that a value is.
pub open spec fn as_number(item: Option<ItemView>) -> Option<Real64> {
    match item {
        Some(ItemView::Unsigned { bits, .. }) => Some(Real64 { bits }),
        Some(ItemView::Negative { bits, .. }) => Some(Real64 { bits }),
        Some(ItemView::Float { bits, .. }) => Some(Real64 { bits }),
        _ => None,
    }
}

/// The number in a field of the settings.
pub open spec fn number_in_field(settings: DocumentView, field: Seq<char>) -> Option<Real64> {
    if settings.kind == DocumentKind::Object {
        as_number(member(settings.entries, field))
    } else {
        None
    }
}

/// The number in a field of the settings.
pub fn setting_number(settings: &Document, field: &str) -> (value: Option<Real64>)
    ensures
        value == number_in_field(settings@, field@),
{
    if !matches!(settings.kind, DocumentKind::Object) {
        return None;
    }
    let ghost all = settings@.entries;
    let mut i: usize = 0;
    assert(all.skip(0) =~= all);
    while i < settings.entries.len()
        invariant
            i <= settings.entries@.len(),
            all == settings@.entries,
            member(all, field@) == member(all.skip(i as int), field@),
            settings.kind == DocumentKind::Object,
        decreases settings.entries@.len() - i,
    {
        let ghost rest = all.skip(i as int);
        let entry = &settings.entries[i];
        assert(rest[0] == (entry.0@, entry.1@));
        assert(rest.drop_first() =~= all.skip(i as int + 1));
        if text::same(&entry.0, field) {
            return match &entry.1 {
                JsonItem::Unsigned { bits, .. } => Some(Real64 { bits: *bits }),
                JsonItem::Negative { bits, .. } => Some(Real64 { bits: *bits }),
                JsonItem::Float { bits, .. } => Some(Real64 { bits: *bits }),
                _ => None,
            };
        }
        i += 1;
    }
    assert(all.skip(i as int) =~= Seq::<(Seq<char>, ItemView)>::empty());
    None
}

/// What is said of settings that cannot be read.
pub open spec fn settings_error(error: Seq<char>) -> Seq<char> {
    "failed to parse Arknights common settings JSON: "@ + error
}

/// The number in a field of the settings, from their text as the registry holds it.
pub open spec fn number_read(settings: Option<&str>, field: Seq<char>) -> Result<
    Option<Real64>,
    Seq<char>,
> {
    match settings {
        Some(settings) => match json_document(settings@) {
            Ok(document) => Ok(number_in_field(document, field)),
            Err(error) => Err(settings_error(error)),
        },
        None => Ok(None),
    }
}

pub open spec fn read_result(r: Result<Option<Real64>, String>) -> Result<
    Option<Real64>,
    Seq<char>,
> {
    match r {
        Ok(value) => Ok(value),
        Err(message) => Err(message@),
    }
}

fn read_pc_common_setting_number(settings: Option<&str>, field: &str) -> (r: Result<
    Option<Real64>,
    String,
>)
    ensures
        read_result(r) == number_read(settings, field@),
{
    match settings {
        Some(settings) => match json::read_document(settings) {
            Ok(document) => Ok(setting_number(&document, field)),
            Err(error) => {
                let mut message = "failed to parse Arknights common settings JSON: ".to_owned();
                message.append(&error);
                Err(message)
            },
        },
        None => Ok(None),
    }
}

/// The scale of the game's user interface.
pub open spec fn ui_scaler_read(settings: Option<&str>) -> Result<Option<Real64>, Seq<char>> {
    number_read(settings, UI_SCALER_FIELD@)
}

/// The size of the cursor that the game draws.
pub open spec fn cursor_size_read(settings: Option<&str>) -> Result<Option<Real64>, Seq<char>> {
    number_read(settings, CURSOR_SIZE_FIELD@)
}

/// The scale of the game's user interface, from the text of its settings.
pub fn read_pc_ui_scaler(settings: Option<&str>) -> (r: Result<Option<Real64>, String>)
    ensures
        read_result(r) == ui_scaler_read(settings),
{
    read_pc_common_setting_number(settings, UI_SCALER_FIELD)
}

/// The size of the cursor that the game draws, from the text of its settings.
pub fn read_pc_cursor_size(settings: Option<&str>) -> (r: Result<Option<Real64>, String>)
    ensures
        read_result(r) == cursor_size_read(settings),
{
    read_pc_common_setting_number(settings, CURSOR_SIZE_FIELD)
}

/// A text that the registry holds in UTF-16, with or without a zero behind it, is read as it is.
pub proof fn law_registry_text_is_read_back(s: Seq<char>, bytes: Seq<u8>)
    requires
        s.len() > 0,
        forall|i: int| 0 <= i < s.len() ==> s[i] != '\0',
        units_of(bytes) == text::utf16_of(s) || units_of(bytes) == text::utf16_of(s).push(0),
    ensures
        registry_text(RegistryKind::Text, bytes) == Some(s),
{
    let units = text::utf16_of(s);
    lemma_units_not_zero(s);
    lemma_before_zero_units(units_of(bytes), units.len() as int);
    assert(units_of(bytes).take(units.len() as int) =~= units);
    text::law_utf16_round_trip(s);
}

proof fn lemma_units_not_zero(s: Seq<char>)
    requires
        forall|i: int| 0 <= i < s.len() ==> s[i] != '\0',
    ensures
        forall|i: int| 0 <= i < text::utf16_of(s).len() ==> text::utf16_of(s)[i] != 0,
        s.len() > 0 ==> text::utf16_of(s).len() > 0,
    decreases s.len(),
{
    if s.len() > 0 {
        let front = s.drop_last();
        assert forall|i: int| 0 <= i < front.len() implies front[i] != '\0' by {
            assert(front[i] == s[i]);
        }
        lemma_units_not_zero(front);
        text::lemma_char_is_scalar(s.last());
        text::lemma_char_is_scalar('\0');
        assert(s.last() == s[s.len() - 1]);
        assert(s.last() as int != 0);
        let units = text::utf16_units(s.last());
        assert forall|i: int| 0 <= i < text::utf16_of(s).len() implies text::utf16_of(s)[i] != 0 by {
            let before = text::utf16_of(front);
            if i < before.len() {
                assert(text::utf16_of(s)[i] == before[i]);
            } else {
                assert(text::utf16_of(s)[i] == units[i - before.len()]);
            }
        }
    }
}

/// A pair of bytes is one number, with the lower byte first; an odd byte at the end is no pair.
pub proof fn law_the_lower_byte_comes_first(bytes: Seq<u8>, i: int)
    requires
        0 <= i < bytes.len() / 2,
    ensures
        units_of(bytes).len() == bytes.len() / 2,
        units_of(bytes)[i] % 256 == bytes[2 * i],
        units_of(bytes)[i] / 256 == bytes[2 * i + 1],
{
}

/// A value ends before its first zero: what follows it does not matter.
pub proof fn law_values_end_at_the_first_zero(
    bytes: Seq<u8>,
    rest: Seq<u8>,
    units: Seq<u16>,
    more: Seq<u16>,
)
    requires
        forall|i: int| 0 <= i < bytes.len() ==> bytes[i] != 0,
        forall|i: int| 0 <= i < units.len() ==> units[i] != 0,
    ensures
        before_zero(bytes) == bytes,
        before_zero(bytes + seq![0u8] + rest) == bytes,
        before_zero_units(units) == units,
        before_zero_units(units + seq![0u16] + more) == units,
{
    lemma_before_zero(bytes, bytes.len() as int);
    assert(bytes.take(bytes.len() as int) =~= bytes);
    let whole = bytes + seq![0u8] + rest;
    assert(whole[bytes.len() as int] == 0);
    assert forall|i: int| 0 <= i < bytes.len() implies whole[i] != 0 by {
        assert(whole[i] == bytes[i]);
    }
    lemma_before_zero(whole, bytes.len() as int);
    assert(whole.take(bytes.len() as int) =~= bytes);
    lemma_before_zero_units(units, units.len() as int);
    assert(units.take(units.len() as int) =~= units);
    let all = units + seq![0u16] + more;
    assert(all[units.len() as int] == 0);
    assert forall|i: int| 0 <= i < units.len() implies all[i] != 0 by {
        assert(all[i] == units[i]);
    }
    lemma_before_zero_units(all, units.len() as int);
    assert(all.take(units.len() as int) =~= units);
}

/// A value without text tells nothing, and neither does one that is no text at all.
pub proof fn law_empty_values_tell_nothing(bytes: Seq<u8>)
    ensures
        registry_text(RegistryKind::Other, bytes) is None,
        registry_text(RegistryKind::Text, Seq::empty()) is None,
        registry_text(RegistryKind::Binary, Seq::empty()) is None,
        bytes.len() > 0 && bytes[0] == 0 ==> registry_text(RegistryKind::Binary, bytes) is None,
        bytes.len() > 0 && bytes[0] != 0 ==> registry_text(RegistryKind::Binary, bytes) is Some,
{
}

proof fn lemma_member_at(entries: Seq<(Seq<char>, ItemView)>, key: Seq<char>, i: int)
    requires
        0 <= i < entries.len(),
        entries[i].0 == key,
        forall|k: int| 0 <= k < i ==> (#[trigger] entries[k]).0 != key,
    ensures
        member(entries, key) == Some(entries[i].1),
    decreases entries.len(),
{
    if i > 0 {
        let rest = entries.drop_first();
        assert(entries[0].0 != key);
        assert forall|k: int| 0 <= k < i - 1 implies (#[trigger] rest[k]).0 != key by {
            assert(rest[k] == entries[k + 1]);
        }
        assert(rest[i - 1] == entries[i]);
        lemma_member_at(rest, key, i - 1);
    }
}

/// A setting is the number under its own name in the game's settings: the scale that of `uiScaler`,
/// the size of the cursor that of `cursorSize`. A number is taken as it is, whole or not; anything
/// else under the name is no setting.
pub proof fn law_settings_are_read_by_their_names(
    settings: &str,
    document: DocumentView,
    i: int,
    j: int,
)
    requires
        json_document(settings@) == Ok::<DocumentView, Seq<char>>(document),
        document.kind == DocumentKind::Object,
        0 <= i < document.entries.len(),
        0 <= j < document.entries.len(),
        document.entries[i].0 == "uiScaler"@,
        document.entries[j].0 == "cursorSize"@,
        forall|k: int| 0 <= k < i ==> (#[trigger] document.entries[k]).0 != "uiScaler"@,
        forall|k: int| 0 <= k < j ==> (#[trigger] document.entries[k]).0 != "cursorSize"@,
    ensures
        document.entries[i].1 matches ItemView::Float { bits, .. } ==> ui_scaler_read(Some(settings))
            == Ok::<Option<Real64>, Seq<char>>(Some(Real64 { bits })),
        document.entries[i].1 matches ItemView::Unsigned { bits, .. } ==> ui_scaler_read(
            Some(settings),
        ) == Ok::<Option<Real64>, Seq<char>>(Some(Real64 { bits })),
        document.entries[i].1 is Text ==> ui_scaler_read(Some(settings)) == Ok::<
            Option<Real64>,
            Seq<char>,
        >(None),
        document.entries[j].1 matches ItemView::Float { bits, .. } ==> cursor_size_read(
            Some(settings),
        ) == Ok::<Option<Real64>, Seq<char>>(Some(Real64 { bits })),
        document.entries[j].1 matches ItemView::Unsigned { bits, .. } ==> cursor_size_read(
            Some(settings),
        ) == Ok::<Option<Real64>, Seq<char>>(Some(Real64 { bits })),
{
    lemma_member_at(document.entries, "uiScaler"@, i);
    lemma_member_at(document.entries, "cursorSize"@, j);
}

/// Without settings there is no number, which is no error; settings that cannot be read are one.
pub proof fn law_missing_settings_are_no_error(settings: &str)
    ensures
        ui_scaler_read(None) == Ok::<Option<Real64>, Seq<char>>(None),
        cursor_size_read(None) == Ok::<Option<Real64>, Seq<char>>(None),
        ui_scaler_read(Some(settings)) is Err <==> json_document(settings@) is Err,
        cursor_size_read(Some(settings)) is Err <==> json_document(settings@) is Err,
        json_document(settings@) matches Err(error) ==> (ui_scaler_read(Some(settings)) matches Err(
            message,
        ) && text::ends_with(message, error)),
{
    if let Err(error) = json_document(settings@) {
        let message = settings_error(error);
        assert(message.skip(message.len() - error.len()) =~= error);
    }
}

} // verus!
