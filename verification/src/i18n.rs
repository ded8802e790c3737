//! The texts of the user interface in the user's language.
use crate::json;
use crate::json::{json_document, Document, DocumentKind, DocumentView, ItemView, JsonItem};
use crate::text;
use crate::text::{contains_text, lowered, replaced, same_but_case};
use vstd::prelude::*;

verus! {

/// The language of the texts, and each text under its key.
#[derive(Debug)]
pub struct I18n {
    pub locale: &'static str,
    pub values: Vec<(String, String)>,
}

pub open spec fn pairs(values: Seq<(String, String)>) -> Seq<(Seq<char>, Seq<char>)> {
    values.map_values(|pair: (String, String)| (pair.0@, pair.1@))
}

/// The locale for a configured language: English where it is asked for, else Chinese.
pub open spec fn locale_of(language: Seq<char>) -> Seq<char> {
    if same_but_case(language, "en"@) || same_but_case(language, "en_US"@) {
        "en_US"@
    } else {
        "zh_CN"@
    }
}

/// The locale for the language of the system.
pub open spec fn locale_of_system(lang: Seq<char>) -> Seq<char> {
    if contains_text(lowered(lang), "en"@) {
        "en_US"@
    } else {
        "zh_CN"@
    }
}

pub fn normalize_locale(locale: &str) -> (r: &'static str)
    ensures
        r@ == locale_of(locale@),
{
    if text::same_ignoring_case(locale, "en") || text::same_ignoring_case(locale, "en_US") {
        "en_US"
    } else {
        "zh_CN"
    }
}

pub fn detect_locale(lang: &str) -> (r: &'static str)
    ensures
        r@ == locale_of_system(lang@),
{
    if text::contains(&text::to_lower(lang), "en") {
        "en_US"
    } else {
        "zh_CN"
    }
}

/// The locale to use: the configured one, or else the system's.
pub open spec fn chosen_locale(preferred: Option<&str>, lang: Seq<char>) -> Seq<char> {
    match preferred {
        Some(language) => locale_of(language@),
        None => locale_of_system(lang),
    }
}

pub fn wanted_locale(preferred: Option<&str>, lang: &str) -> (r: &'static str)
    ensures
        r@ == chosen_locale(preferred, lang@),
{
    match preferred {
        Some(language) => normalize_locale(language),
        None => detect_locale(lang),
    }
}

pub open spec fn is_text(item: ItemView) -> bool {
    item is Text
}

/// The texts of a document: an object whose values are all texts; otherwise there are none.
pub open spec fn texts_of(document: DocumentView) -> Seq<(Seq<char>, Seq<char>)> {
    if document.kind == DocumentKind::Object && forall|i: int|
        0 <= i < document.entries.len() ==> is_text((#[trigger] document.entries[i]).1) {
        document.entries.map_values(|entry: (Seq<char>, ItemView)| (entry.0, entry.1->Text_0))
    } else {
        Seq::empty()
    }
}

/// The texts in a file; none where it is missing or not a file of texts.
pub open spec fn texts_in(contents: Option<&str>) -> Seq<(Seq<char>, Seq<char>)> {
    match contents {
        Some(contents) => match json_document(contents@) {
            Ok(document) => texts_of(document),
            Err(_) => Seq::empty(),
        },
        None => Seq::empty(),
    }
}

/// The texts of a document.
pub fn texts_from_document(document: &Document) -> (values: Vec<(String, String)>)
    ensures
        pairs(values@) == texts_of(document@),
{
    let ghost entries = document@.entries;
    let mut values: Vec<(String, String)> = Vec::new();
    assert(pairs(values@) =~= Seq::<(Seq<char>, Seq<char>)>::empty());
    if !matches!(document.kind, DocumentKind::Object) {
        return values;
    }
    let ghost all = entries.map_values(
        |entry: (Seq<char>, ItemView)| (entry.0, entry.1->Text_0),
    );
    let mut i: usize = 0;
    while i < document.entries.len()
        invariant
            i <= document.entries@.len(),
            document.kind == DocumentKind::Object,
            entries == document@.entries,
            all == entries.map_values(
                |entry: (Seq<char>, ItemView)| (entry.0, entry.1->Text_0),
            ),
            forall|k: int| 0 <= k < i ==> is_text((#[trigger] entries[k]).1),
            pairs(values@) =~= all.take(i as int),
        decreases document.entries@.len() - i,
    {
        let entry = &document.entries[i];
        assert(entries[i as int] == (entry.0@, entry.1@));
        match &entry.1 {
            JsonItem::Text(value) => {
                let ghost before = pairs(values@);
                let pair = (entry.0.clone(), value.clone());
                let ghost added = (pair.0@, pair.1@);
                values.push(pair);
                assert(pairs(values@) =~= before.push(added));
                assert(all.take(i as int + 1) =~= all.take(i as int).push(all[i as int]));
            },
            _ => {
                assert(!is_text(entries[i as int].1));
                let nothing: Vec<(String, String)> = Vec::new();
                assert(pairs(nothing@) =~= Seq::<(Seq<char>, Seq<char>)>::empty());
                return nothing;
            },
        }
        i += 1;
    }
    assert(all.take(i as int) =~= all);
    values
}

fn load_locale_file(contents: Option<&str>) -> (values: Vec<(String, String)>)
    ensures
        pairs(values@) == texts_in(contents),
{
    if let Some(contents) = contents {
        if let Ok(document) = json::read_document(contents) {
            return texts_from_document(&document);
        }
    }
    let nothing: Vec<(String, String)> = Vec::new();
    assert(pairs(nothing@) =~= Seq::<(Seq<char>, Seq<char>)>::empty());
    nothing
}

/// The text under `key`.
pub open spec fn text_under(values: Seq<(Seq<char>, Seq<char>)>, key: Seq<char>) -> Option<Seq<char>>
    decreases values.len(),
{
    if values.len() == 0 {
        None
    } else if values[0].0 == key {
        Some(values[0].1)
    } else {
        text_under(values.drop_first(), key)
    }
}

/// The text under `key`, or the key itself.
pub open spec fn translated(values: Seq<(Seq<char>, Seq<char>)>, key: Seq<char>) -> Seq<char> {
    match text_under(values, key) {
        Some(text) => text,
        None => key,
    }
}

/// The place in a text for the value of that name.
pub open spec fn placeholder(name: Seq<char>) -> Seq<char> {
    seq!['{'] + name + seq!['}']
}

pub open spec fn value_views(values: Seq<(&str, String)>) -> Seq<(Seq<char>, Seq<char>)> {
    values.map_values(|value: (&str, String)| (value.0@, value.1@))
}

/// `text` with values for the placeholders, one after the other.
pub open spec fn filled_in(
    text: Seq<char>,
    replacements: Seq<(Seq<char>, Seq<char>)>,
) -> Seq<char>
    decreases replacements.len(),
{
    if replacements.len() == 0 {
        text
    } else {
        replaced(
            filled_in(text, replacements.drop_last()),
            placeholder(replacements.last().0),
            replacements.last().1,
        )
    }
}

/// The texts of the wanted locale, or the Chinese ones where it has none.
pub open spec fn is_loaded(
    wanted: Seq<char>,
    texts: Seq<(Seq<char>, Seq<char>)>,
    fallback: Seq<(Seq<char>, Seq<char>)>,
    i18n: I18n,
) -> bool {
    if texts.len() == 0 && wanted != "zh_CN"@ {
        i18n.locale@ == "zh_CN"@ && pairs(i18n.values@) == fallback
    } else {
        i18n.locale@ == wanted && pairs(i18n.values@) == texts
    }
}

impl I18n {
    /// The texts of the wanted locale, from the contents of its file. Where that gives none, those
    /// of the Chinese one.
    #[must_use]
    pub fn load(
        preferred: Option<&str>,
        lang: &str,
        contents: Option<&str>,
        fallback: Option<&str>,
    ) -> (i18n: Self)
        ensures
            is_loaded(chosen_locale(preferred, lang@), texts_in(contents), texts_in(fallback), i18n),
    {
        let locale = wanted_locale(preferred, lang);
        let values = load_locale_file(contents);
        assert(pairs(values@).len() == values@.len());
        if values.len() == 0 && !text::same(locale, "zh_CN") {
            I18n { locale: "zh_CN", values: load_locale_file(fallback) }
        } else {
            I18n { locale, values }
        }
    }

    #[must_use]
    pub fn locale(&self) -> (locale: &'static str)
        ensures
            locale@ == self.locale@,
    {
        self.locale
    }

    /// The text under `key`, or the key itself where there is none.
    #[must_use]
    pub fn tr(&self, key: &str) -> (text: String)
        ensures
            text@ == translated(pairs(self.values@), key@),
    {
        let ghost all = pairs(self.values@);
        let mut i: usize = 0;
        assert(all.skip(0) =~= all);
        while i < self.values.len()
            invariant
                i <= self.values@.len(),
                all == pairs(self.values@),
                text_under(all, key@) == text_under(all.skip(i as int), key@),
            decreases self.values@.len() - i,
        {
            let ghost rest = all.skip(i as int);
            assert(rest[0] == (self.values@[i as int].0@, self.values@[i as int].1@));
            assert(rest.drop_first() =~= all.skip(i as int + 1));
            if text::same(&self.values[i].0, key) {
                return self.values[i].1.clone();
            }
            i += 1;
        }
        assert(all.skip(i as int) =~= Seq::<(Seq<char>, Seq<char>)>::empty());
        key.to_owned()
    }

    /// The text under `key` with values for its placeholders.
    #[must_use]
    pub fn tr_with(&self, key: &str, replacements: &Vec<(&str, String)>) -> (text: String)
        ensures
            text@ == filled_in(
                translated(pairs(self.values@), key@),
                value_views(replacements@),
            ),
    {
        let mut text = self.tr(key);
        let ghost start = text@;
        let ghost all = value_views(replacements@);
        let mut i: usize = 0;
        assert(all.take(0) =~= Seq::<(Seq<char>, Seq<char>)>::empty());
        while i < replacements.len()
            invariant
                i <= replacements@.len(),
                all == value_views(replacements@),
                text@ == filled_in(start, all.take(i as int)),
            decreases replacements@.len() - i,
        {
            proof {
                assert(all.take(i as int + 1).drop_last() =~= all.take(i as int));
                assert(all.take(i as int + 1).last() == (
                    replacements@[i as int].0@,
                    replacements@[i as int].1@,
                ));
            }
            let mut place = String::new();
            place.push('{');
            place.append(replacements[i].0);
            place.push('}');
            assert(place@ =~= placeholder(replacements@[i as int].0@));
            text = text::replace(&text, &place, &replacements[i].1);
            i += 1;
        }
        assert(all.take(i as int) =~= all);
        text
    }
}

/// A text without any of the placeholders is not changed by their values.
pub proof fn law_plain_text_is_kept(text: Seq<char>, replacements: Seq<(Seq<char>, Seq<char>)>)
    requires
        forall|i: int|
            0 <= i < replacements.len() ==> !contains_text(
                text,
                placeholder((#[trigger] replacements[i]).0),
            ),
    ensures
        filled_in(text, replacements) == text,
    decreases replacements.len(),
{
    if replacements.len() > 0 {
        let front = replacements.drop_last();
        assert forall|i: int| 0 <= i < front.len() implies !contains_text(
            text,
            placeholder((#[trigger] front[i]).0),
        ) by {
            assert(front[i] == replacements[i]);
        }
        law_plain_text_is_kept(text, front);
        let last = replacements.last();
        assert(last == replacements[replacements.len() - 1]);
        text::lemma_nothing_to_replace(text, placeholder(last.0), last.1, 0);
        assert(text.skip(0) =~= text);
    }
}

/// A key without a text stands for itself.
pub proof fn law_unknown_key_is_shown(values: Seq<(Seq<char>, Seq<char>)>, key: Seq<char>)
    requires
        forall|i: int| 0 <= i < values.len() ==> (#[trigger] values[i]).0 != key,
    ensures
        translated(values, key) == key,
    decreases values.len(),
{
    if values.len() > 0 {
        let rest = values.drop_first();
        assert forall|i: int| 0 <= i < rest.len() implies (#[trigger] rest[i]).0 != key by {
            assert(rest[i] == values[i + 1]);
        }
        law_unknown_key_is_shown(rest, key);
        assert(values[0].0 != key);
    }
}

proof fn lemma_locale_names()
    ensures
        "en_US"@ != "zh_CN"@,
        lowered("zh_CN"@) != lowered("en"@),
        lowered("zh_CN"@) != lowered("en_US"@),
{
    reveal_strlit("en");
    reveal_strlit("en_US");
    reveal_strlit("zh_CN");
    assert("en_US"@[0] == 'e' && "zh_CN"@[0] == 'z');
    assert(lowered("zh_CN"@)[0] == 'z');
    assert(lowered("en"@)[0] == 'e');
    assert(lowered("en_US"@)[0] == 'e');
}

/// A locale is one of two. Which one depends on the language but not on the case of its letters,
/// and the locale of a locale is the same.
pub proof fn law_locales_settle(a: Seq<char>, b: Seq<char>)
    ensures
        locale_of(a) == "en_US"@ || locale_of(a) == "zh_CN"@,
        locale_of_system(a) == "en_US"@ || locale_of_system(a) == "zh_CN"@,
        lowered(a) == lowered(b) ==> locale_of(a) == locale_of(b) && locale_of_system(a)
            == locale_of_system(b),
        locale_of(locale_of(a)) == locale_of(a),
        locale_of("en"@) == "en_US"@,
        locale_of("en_US"@) == "en_US"@,
        locale_of("zh_CN"@) == "zh_CN"@,
        "en_US"@ != "zh_CN"@,
{
    lemma_locale_names();
}

/// What the user has configured counts, whatever the system says; the system counts where nothing
/// is configured.
pub proof fn law_configured_language_counts(language: &str, lang: Seq<char>, other: Seq<char>)
    ensures
        chosen_locale(Some(language), lang) == chosen_locale(Some(language), other),
        chosen_locale(Some(language), lang) == locale_of(language@),
        chosen_locale(None, lang) == locale_of_system(lang),
{
}

/// Where the wanted locale has texts these are the ones that are shown, and the language that is
/// named is the language that is shown; the other file is used only in place of an empty one.
pub proof fn law_shown_texts_are_those_of_the_locale(
    wanted: Seq<char>,
    texts: Seq<(Seq<char>, Seq<char>)>,
    fallback: Seq<(Seq<char>, Seq<char>)>,
    i18n: I18n,
)
    requires
        is_loaded(wanted, texts, fallback, i18n),
    ensures
        texts.len() > 0 ==> i18n.locale@ == wanted && pairs(i18n.values@) == texts,
        i18n.locale@ != wanted ==> texts.len() == 0 && i18n.locale@ == "zh_CN"@ && pairs(
            i18n.values@,
        ) == fallback,
        wanted == "zh_CN"@ ==> i18n.locale@ == "zh_CN"@ && pairs(i18n.values@) == texts,
{
}

/// The text of a key is the one that stands under it first.
pub proof fn law_key_stands_for_its_text(
    values: Seq<(Seq<char>, Seq<char>)>,
    key: Seq<char>,
    i: int,
)
    requires
        0 <= i < values.len(),
        values[i].0 == key,
        forall|k: int| 0 <= k < i ==> (#[trigger] values[k]).0 != key,
    ensures
        translated(values, key) == values[i].1,
    decreases values.len(),
{
    if i > 0 {
        let rest = values.drop_first();
        assert(values[0].0 != key);
        assert forall|k: int| 0 <= k < i - 1 implies (#[trigger] rest[k]).0 != key by {
            assert(rest[k] == values[k + 1]);
        }
        assert(rest[i - 1] == values[i]);
        law_key_stands_for_its_text(rest, key, i - 1);
    }
}

/// A file of texts has each of its entries, under its key and in its place; with anything else among
/// the values it has none.
pub proof fn law_texts_are_those_of_the_file(document: DocumentView, i: int)
    requires
        document.kind == DocumentKind::Object,
        0 <= i < document.entries.len(),
    ensures
        !(document.entries[i].1 is Text) ==> texts_of(document).len() == 0,
        texts_of(document).len() > 0 ==> {
            &&& texts_of(document).len() == document.entries.len()
            &&& texts_of(document)[i].0 == document.entries[i].0
            &&& document.entries[i].1 == ItemView::Text(texts_of(document)[i].1)
        },
        (forall|k: int| 0 <= k < document.entries.len() ==> (#[trigger] document.entries[k]).1 is Text)
            ==> texts_of(document).len() == document.entries.len(),
{
    if !(document.entries[i].1 is Text) {
        assert(!is_text(document.entries[i].1));
    }
    if forall|k: int| 0 <= k < document.entries.len() ==> (#[trigger] document.entries[k]).1 is Text {
        assert forall|k: int| 0 <= k < document.entries.len() implies is_text(
            (#[trigger] document.entries[k]).1,
        ) by {}
    }
}

/// The value of a name stands in the place of that name between braces, wherever it occurs, and what
/// stands around it is kept.
pub proof fn law_values_stand_in_their_places(
    text: Seq<char>,
    name: Seq<char>,
    value: Seq<char>,
    k: int,
)
    requires
        text::stands_at(text, seq!['{'] + name + seq!['}'], k),
        forall|j: int|
            0 <= j < k ==> !#[trigger] text::stands_at(text, seq!['{'] + name + seq!['}'], j),
    ensures
        filled_in(text, seq![(name, value)]) == text.take(k) + value + filled_in(
            text.skip(k + name.len() + 2),
            seq![(name, value)],
        ),
{
    let one = seq![(name, value)];
    assert(one.drop_last() =~= Seq::<(Seq<char>, Seq<char>)>::empty());
    reveal_with_fuel(filled_in, 2);
    text::law_the_first_place_is_replaced(text, placeholder(name), value, k);
}

/// Values are filled in one after the other, in the order in which they are given.
pub proof fn law_values_are_filled_in_by_turns(
    text: Seq<char>,
    replacements: Seq<(Seq<char>, Seq<char>)>,
    name: Seq<char>,
    value: Seq<char>,
)
    ensures
        filled_in(text, replacements.push((name, value))) == filled_in(
            filled_in(text, replacements),
            seq![(name, value)],
        ),
        filled_in(text, Seq::empty()) == text,
{
    let one = seq![(name, value)];
    assert(one.drop_last() =~= Seq::<(Seq<char>, Seq<char>)>::empty());
    reveal_with_fuel(filled_in, 2);
    assert(replacements.push((name, value)).drop_last() =~= replacements);
}

} // verus!
