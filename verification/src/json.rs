//! JSON: reading a document through `serde_json`, and writing one.
use crate::text;
use crate::text::{contains_text, decimal, decimal_int, digits_at_most, in_order, opt_view};
use serde::de::Unexpected;
use serde_json::Value;
use vstd::prelude::*;

verus! {

/// A JSON value. Numbers carry the bits of their double-precision value. An array or an object
/// inside a document is kept as it is written.
#[allow(inconsistent_fields)]
#[derive(Debug, PartialEq, Eq)]
pub enum JsonItem {
    Null,
    Bool(bool),
    Unsigned { value: u64, bits: u64 },
    Negative { value: i64, bits: u64 },
    Float { bits: u64, text: String },
    Text(String),
    Array(String),
    Object(String),
}

impl Clone for JsonItem {
    fn clone(&self) -> (copy: Self)
        ensures
            copy == *self,
    {
        match self {
            JsonItem::Null => JsonItem::Null,
            JsonItem::Bool(b) => JsonItem::Bool(*b),
            JsonItem::Unsigned { value, bits } => JsonItem::Unsigned { value: *value, bits: *bits },
            JsonItem::Negative { value, bits } => JsonItem::Negative { value: *value, bits: *bits },
            JsonItem::Float { bits, text } => JsonItem::Float { bits: *bits, text: text.clone() },
            JsonItem::Text(s) => JsonItem::Text(s.clone()),
            JsonItem::Array(s) => JsonItem::Array(s.clone()),
            JsonItem::Object(s) => JsonItem::Object(s.clone()),
        }
    }
}

#[derive(Clone, Copy, Debug, PartialEq, Eq, Structural)]
pub enum DocumentKind {
    Object,
    Array,
    Scalar,
}

/// A JSON document: the members of an object in the order of their keys, the elements of an array
/// under empty keys, or a single value.
#[derive(Debug, PartialEq, Eq)]
pub struct Document {
    pub kind: DocumentKind,
    pub entries: Vec<(String, JsonItem)>,
}

/// What a value is.
#[allow(inconsistent_fields)]
#[verifier::ext_equal]
pub enum ItemView {
    Null,
    Bool(bool),
    Unsigned { value: u64, bits: u64 },
    Negative { value: i64, bits: u64 },
    Float { bits: u64, text: Seq<char> },
    Text(Seq<char>),
    Array(Seq<char>),
    Object(Seq<char>),
}

/// What a document holds.
#[verifier::ext_equal]
pub struct DocumentView {
    pub kind: DocumentKind,
    pub entries: Seq<(Seq<char>, ItemView)>,
}

impl View for JsonItem {
    type V = ItemView;

    open spec fn view(&self) -> ItemView {
        match *self {
            JsonItem::Null => ItemView::Null,
            JsonItem::Bool(b) => ItemView::Bool(b),
            JsonItem::Unsigned { value, bits } => ItemView::Unsigned { value, bits },
            JsonItem::Negative { value, bits } => ItemView::Negative { value, bits },
            JsonItem::Float { bits, text } => ItemView::Float { bits, text: text@ },
            JsonItem::Text(s) => ItemView::Text(s@),
            JsonItem::Array(s) => ItemView::Array(s@),
            JsonItem::Object(s) => ItemView::Object(s@),
        }
    }
}

pub open spec fn entry_views(entries: Seq<(String, JsonItem)>) -> Seq<(Seq<char>, ItemView)> {
    entries.map_values(|entry: (String, JsonItem)| (entry.0@, entry.1@))
}

pub open spec fn members_view(members: Option<Vec<(String, JsonItem)>>) -> Option<
    Seq<(Seq<char>, ItemView)>,
> {
    match members {
        Some(members) => Some(entry_views(members@)),
        None => None,
    }
}

pub open spec fn object_views(objects: Seq<Option<Vec<(String, JsonItem)>>>) -> Seq<
    Option<Seq<(Seq<char>, ItemView)>>,
> {
    objects.map_values(|members: Option<Vec<(String, JsonItem)>>| members_view(members))
}

impl View for Document {
    type V = DocumentView;

    open spec fn view(&self) -> DocumentView {
        DocumentView { kind: self.kind, entries: entry_views(self.entries@) }
    }
}

/// What `serde_json` tells of a value: the bits of the number it is, the string it is, and how it
/// is written.
#[derive(Debug)]
pub struct RawItem {
    pub bits: Option<u64>,
    pub string: Option<String>,
    pub text: String,
}

/// What `serde_json` tells of a document: the members of the object it is, the elements of the array
/// it is, and what it tells of it as a value.
#[derive(Debug)]
pub struct RawDocument {
    pub object: Option<Vec<(String, RawItem)>>,
    pub array: Option<Vec<RawItem>>,
    pub whole: RawItem,
}

#[verifier::ext_equal]
pub struct RawDocumentView {
    pub object: Option<Seq<(Seq<char>, RawItemView)>>,
    pub array: Option<Seq<RawItemView>>,
    pub whole: RawItemView,
}

#[verifier::ext_equal]
pub struct RawItemView {
    pub bits: Option<u64>,
    pub string: Option<Seq<char>>,
    pub text: Seq<char>,
}

impl View for RawItem {
    type V = RawItemView;

    open spec fn view(&self) -> RawItemView {
        RawItemView { bits: self.bits, string: opt_view(self.string), text: self.text@ }
    }
}

pub open spec fn raw_member_views(members: Seq<(String, RawItem)>) -> Seq<
    (Seq<char>, RawItemView),
> {
    members.map_values(|member: (String, RawItem)| (member.0@, member.1@))
}

impl View for RawDocument {
    type V = RawDocumentView;

    open spec fn view(&self) -> RawDocumentView {
        RawDocumentView {
            object: match self.object {
                Some(members) => Some(raw_member_views(members@)),
                None => None,
            },
            array: match self.array {
                Some(elements) => Some(elements@.map_values(|item: RawItem| item@)),
                None => None,
            },
            whole: self.whole@,
        }
    }
}

/// What `serde_json` reads `text` as, at the place that `path` points to, or what it says of the
/// error.
pub uninterp spec fn json_parse(text: Seq<char>, path: Seq<char>) -> Result<
    RawDocumentView,
    Seq<char>,
>;

/// `serde_json::from_str` into a `serde_json::Value`, of which `Value::pointer` picks the value at
/// `path`: all of it where `path` is empty, and null where it points nowhere. That value is taken
/// apart: the members of the object it is, the elements of the array it is, and itself, each by
/// what its accessors tell; or it is the message of the error. Which values those are is left
/// unsaid; it is taken on trust that an object has no key twice.
#[verifier::external_body]
fn parse_document(text: &str, path: &str) -> (document: Result<RawDocument, String>)
    ensures
        json_parse(text@, path@) == match document {
            Ok(document) => Ok::<RawDocumentView, Seq<char>>(document@),
            Err(message) => Err::<RawDocumentView, Seq<char>>(message@),
        },
        document matches Ok(d) ==> (d@.object matches Some(members) ==> distinct_members(members)),
{
    let value: Value = serde_json::from_str(text).map_err(|error| error.to_string())?;
    let value = value.pointer(path).cloned().unwrap_or_default();
    let raw = |v: &Value| RawItem {
        bits: v.as_f64().map(|x| x.to_bits()),
        string: v.as_str().map(String::from),
        text: v.to_string(),
    };
    let object = value.as_object().map(|map| map.iter().map(|(k, v)| (k.clone(), raw(v))).collect());
    let array = value.as_array().map(|values| values.iter().map(raw).collect());
    Ok(RawDocument { object, array, whole: raw(&value) })
}

/// The members of an object have different names.
pub open spec fn distinct_members(members: Seq<(Seq<char>, RawItemView)>) -> bool {
    forall|i: int, j: int|
        0 <= i < j < members.len() ==> (#[trigger] members[i]).0 != (#[trigger] members[j]).0
}

/// A number by how it is written: digits alone, digits behind a minus sign, or otherwise.
pub open spec fn number_of(bits: u64, text: Seq<char>) -> ItemView {
    if let Some(n) = digits_at_most(text, u64::MAX as int) {
        ItemView::Unsigned { value: n as u64, bits }
    } else if text.len() > 0 && text[0] == '-' && digits_at_most(
        text.skip(1),
        0x8000_0000_0000_0000,
    ) is Some {
        ItemView::Negative {
            value: (-digits_at_most(text.skip(1), 0x8000_0000_0000_0000)->0) as i64,
            bits,
        }
    } else {
        ItemView::Float { bits, text }
    }
}

/// The value behind what `serde_json` tells of it. Strings and numbers it tells apart itself; the
/// rest is told apart by how it is written.
pub open spec fn item_of(raw: RawItemView) -> ItemView {
    if let Some(s) = raw.string {
        ItemView::Text(s)
    } else if let Some(bits) = raw.bits {
        number_of(bits, raw.text)
    } else if raw.text == "true"@ {
        ItemView::Bool(true)
    } else if raw.text == "false"@ {
        ItemView::Bool(false)
    } else if text::starts_with(raw.text, "["@) {
        ItemView::Array(raw.text)
    } else if text::starts_with(raw.text, "{"@) {
        ItemView::Object(raw.text)
    } else {
        ItemView::Null
    }
}

/// The members of an object behind what `serde_json` tells of them.
pub open spec fn members_of(members: Seq<(Seq<char>, RawItemView)>) -> Seq<(Seq<char>, ItemView)> {
    members.map_values(|member: (Seq<char>, RawItemView)| (member.0, item_of(member.1)))
}

/// The elements of an array behind what `serde_json` tells of them. They have empty keys.
pub open spec fn elements_of(elements: Seq<RawItemView>) -> Seq<(Seq<char>, ItemView)> {
    elements.map_values(|item: RawItemView| (Seq::<char>::empty(), item_of(item)))
}

/// The document behind what `serde_json` tells of it.
pub open spec fn document_of(raw: RawDocumentView) -> DocumentView {
    if let Some(members) = raw.object {
        DocumentView { kind: DocumentKind::Object, entries: members_of(members) }
    } else if let Some(elements) = raw.array {
        DocumentView { kind: DocumentKind::Array, entries: elements_of(elements) }
    } else {
        DocumentView { kind: DocumentKind::Scalar, entries: elements_of(seq![raw.whole]) }
    }
}

/// The document that stands in `text` where `path` points to, or what is said of the error.
pub open spec fn json_document_at(text: Seq<char>, path: Seq<char>) -> Result<
    DocumentView,
    Seq<char>,
> {
    match json_parse(text, path) {
        Ok(raw) => Ok(document_of(raw)),
        Err(message) => Err(message),
    }
}

/// The document that `text` holds, or what is said of the error.
pub open spec fn json_document(text: Seq<char>) -> Result<DocumentView, Seq<char>> {
    json_document_at(text, ""@)
}

/// What points to a value of a document: its key, with `~` and `/` written as `~0` and `~1`, or its
/// number.
pub open spec fn pointer_to(document: DocumentView, i: int) -> Seq<char> {
    "/"@ + (match document.kind {
        DocumentKind::Object => text::replaced(
            text::replaced(document.entries[i].0, "~"@, "~0"@),
            "/"@,
            "~1"@,
        ),
        _ => decimal(i as nat),
    })
}

/// The members of the object that stands in `text` where `path` points to.
pub open spec fn json_members(text: Seq<char>, path: Seq<char>) -> Option<
    Seq<(Seq<char>, ItemView)>,
> {
    match json_document_at(text, path) {
        Ok(document) => if document.kind == DocumentKind::Object {
            Some(document.entries)
        } else {
            None
        },
        Err(_) => None,
    }
}

/// For each value of the document that `text` holds, the members of the object it is.
pub open spec fn json_objects(text: Seq<char>, document: DocumentView) -> Seq<
    Option<Seq<(Seq<char>, ItemView)>>,
> {
    Seq::new(document.entries.len(), |i: int| json_members(text, pointer_to(document, i)))
}

fn classify_number(bits: u64, text: &str) -> (item: JsonItem)
    ensures
        item@ == number_of(bits, text@),
{
    let chars = text::to_chars(text);
    assert(chars@.subrange(0, chars@.len() as int) =~= text@);
    if let Some(value) = text::parse_digits(&chars, 0, chars.len(), 0xffff_ffff_ffff_ffff) {
        return JsonItem::Unsigned { value, bits };
    }
    if chars.len() > 0 && chars[0] == '-' {
        assert(chars@.subrange(1, chars@.len() as int) =~= text@.skip(1));
        if let Some(n) = text::parse_digits(&chars, 1, chars.len(), 0x8000_0000_0000_0000) {
            let value: i64 = if n == 0x8000_0000_0000_0000 {
                i64::MIN
            } else {
                -(n as i64)
            };
            return JsonItem::Negative { value, bits };
        }
    }
    JsonItem::Float { bits, text: text.to_owned() }
}

fn classify(raw: &RawItem) -> (item: JsonItem)
    ensures
        item@ == item_of(raw@),
{
    if let Some(s) = &raw.string {
        JsonItem::Text(s.clone())
    } else if let Some(bits) = raw.bits {
        classify_number(bits, &raw.text)
    } else if text::same(&raw.text, "true") {
        JsonItem::Bool(true)
    } else if text::same(&raw.text, "false") {
        JsonItem::Bool(false)
    } else if text::has_prefix(&raw.text, "[") {
        JsonItem::Array(raw.text.clone())
    } else if text::has_prefix(&raw.text, "{") {
        JsonItem::Object(raw.text.clone())
    } else {
        JsonItem::Null
    }
}

fn members_from(raw: &Vec<(String, RawItem)>) -> (entries: Vec<(String, JsonItem)>)
    ensures
        entry_views(entries@) == members_of(raw_member_views(raw@)),
{
    let ghost want = members_of(raw_member_views(raw@));
    let mut entries: Vec<(String, JsonItem)> = Vec::new();
    let mut i: usize = 0;
    assert(entry_views(entries@) =~= want.take(0));
    while i < raw.len()
        invariant
            i <= raw@.len() == want.len(),
            want == members_of(raw_member_views(raw@)),
            entry_views(entries@) == want.take(i as int),
        decreases raw@.len() - i,
    {
        let ghost before = entry_views(entries@);
        let key = raw[i].0.clone();
        let item = classify(&raw[i].1);
        proof {
            assert(want[i as int] == (key@, item@));
            assert(want.take(i as int + 1) =~= want.take(i as int).push(want[i as int]));
            assert(entry_views(entries@.push((key, item))) =~= before.push((key@, item@)));
        }
        entries.push((key, item));
        i += 1;
    }
    assert(want.take(i as int) =~= want);
    entries
}

fn elements_from(raw: &Vec<RawItem>) -> (entries: Vec<(String, JsonItem)>)
    ensures
        entry_views(entries@) == elements_of(raw@.map_values(|item: RawItem| item@)),
{
    let ghost want = elements_of(raw@.map_values(|item: RawItem| item@));
    let mut entries: Vec<(String, JsonItem)> = Vec::new();
    let mut i: usize = 0;
    assert(entry_views(entries@) =~= want.take(0));
    while i < raw.len()
        invariant
            i <= raw@.len() == want.len(),
            want == elements_of(raw@.map_values(|item: RawItem| item@)),
            entry_views(entries@) == want.take(i as int),
        decreases raw@.len() - i,
    {
        let ghost before = entry_views(entries@);
        let item = classify(&raw[i]);
        let key = String::new();
        proof {
            assert(key@ =~= Seq::<char>::empty());
            assert(want[i as int] == (key@, item@));
            assert(want.take(i as int + 1) =~= want.take(i as int).push(want[i as int]));
            assert(entry_views(entries@.push((key, item))) =~= before.push((key@, item@)));
        }
        entries.push((key, item));
        i += 1;
    }
    assert(want.take(i as int) =~= want);
    entries
}

/// The document behind what `serde_json` tells of it.
pub fn document_from(raw: &RawDocument) -> (document: Document)
    ensures
        document@ == document_of(raw@),
{
    if let Some(members) = &raw.object {
        Document { kind: DocumentKind::Object, entries: members_from(members) }
    } else if let Some(elements) = &raw.array {
        Document { kind: DocumentKind::Array, entries: elements_from(elements) }
    } else {
        let item = classify(&raw.whole);
        let entries = vec![(String::new(), item)];
        assert(entry_views(entries@) =~= elements_of(seq![raw@.whole]));
        Document { kind: DocumentKind::Scalar, entries }
    }
}

/// The members of an object have different names.
pub open spec fn distinct_keys(entries: Seq<(Seq<char>, ItemView)>) -> bool {
    forall|i: int, j: int|
        0 <= i < j < entries.len() ==> (#[trigger] entries[i]).0 != (#[trigger] entries[j]).0
}

/// Reads a JSON document. The members of an object have different names.
pub fn read_document(text: &str) -> (document: Result<Document, String>)
    ensures
        json_document(text@) == match document {
            Ok(document) => Ok::<_, Seq<char>>(document@),
            Err(message) => Err::<DocumentView, _>(message@),
        },
        document matches Ok(d) ==> (d.kind == DocumentKind::Object ==> distinct_keys(d@.entries)),
{
    match parse_document(text, "") {
        Ok(raw) => Ok(document_from(&raw)),
        Err(message) => Err(message),
    }
}

fn point_to(document: &Document, i: usize) -> (path: String)
    requires
        i < document.entries@.len(),
    ensures
        path@ == pointer_to(document@, i as int),
{
    let mut path = "/".to_owned();
    match document.kind {
        DocumentKind::Object => {
            let key = &document.entries[i].0;
            assert(document@.entries[i as int].0 == key@);
            path.append(&text::replace(&text::replace(key, "~", "~0"), "/", "~1"));
        },
        _ => path.append(&text::decimal_of(i as u64)),
    }
    path
}

fn read_members(text: &str, path: &str) -> (members: Option<Vec<(String, JsonItem)>>)
    ensures
        members_view(members) == json_members(text@, path@),
{
    match parse_document(text, path) {
        Ok(raw) => {
            let document = document_from(&raw);
            match document.kind {
                DocumentKind::Object => Some(document.entries),
                _ => None,
            }
        },
        Err(_) => None,
    }
}

/// Reads the members of each value of a document that is an object itself.
pub fn read_objects(text: &str, document: &Document) -> (objects: Vec<
    Option<Vec<(String, JsonItem)>>,
>)
    ensures
        object_views(objects@) == json_objects(text@, document@),
{
    let ghost want = json_objects(text@, document@);
    let mut objects: Vec<Option<Vec<(String, JsonItem)>>> = Vec::new();
    let mut i: usize = 0;
    assert(object_views(objects@) =~= want.take(0));
    while i < document.entries.len()
        invariant
            i <= document.entries@.len() == want.len(),
            want == json_objects(text@, document@),
            object_views(objects@) == want.take(i as int),
        decreases document.entries@.len() - i,
    {
        let ghost before = object_views(objects@);
        let path = point_to(document, i);
        let members = read_members(text, &path);
        proof {
            assert(want[i as int] == members_view(members));
            assert(want.take(i as int + 1) =~= want.take(i as int).push(want[i as int]));
            assert(object_views(objects@.push(members)) =~= before.push(members_view(members)));
        }
        objects.push(members);
        i += 1;
    }
    assert(want.take(i as int) =~= want);
    objects
}

/// What `serde_json` says of a value of the wrong type.
pub uninterp spec fn wrong_type_text(item: ItemView, expected: Seq<char>) -> Seq<char>;

/// What `serde_json` says of a value of the right type that is out of range.
pub uninterp spec fn wrong_value_text(item: ItemView, expected: Seq<char>) -> Seq<char>;

/// The message of `serde::de::Error::invalid_type` for `serde_json::Error`: what is said where
/// `item` stands and `expected` was wanted. The wording is left unsaid.
#[verifier::external_body]
pub(crate) fn wrong_type(item: &JsonItem, expected: &str) -> (message: String)
    ensures
        message@ == wrong_type_text(item@, expected@),
{
    let unexpected = match item {
        JsonItem::Null => Unexpected::Unit,
        JsonItem::Bool(b) => Unexpected::Bool(*b),
        JsonItem::Unsigned { value, .. } => Unexpected::Unsigned(*value),
        JsonItem::Negative { value, .. } => Unexpected::Signed(*value),
        JsonItem::Float { text, .. } => Unexpected::Float(text.parse().unwrap_or_default()),
        JsonItem::Text(s) => Unexpected::Str(s),
        JsonItem::Array(_) => Unexpected::Seq,
        JsonItem::Object(_) => Unexpected::Map,
    };
    let error: serde_json::Error = serde::de::Error::invalid_type(unexpected, &expected);
    error.to_string()
}

/// The message of `serde::de::Error::invalid_value` for `serde_json::Error`: what is said where
/// `item` is of the right type and not a valid `expected`. The wording is left unsaid.
#[verifier::external_body]
pub(crate) fn wrong_value(item: &JsonItem, expected: &str) -> (message: String)
    ensures
        message@ == wrong_value_text(item@, expected@),
{
    let unexpected = match item {
        JsonItem::Null => Unexpected::Unit,
        JsonItem::Bool(b) => Unexpected::Bool(*b),
        JsonItem::Unsigned { value, .. } => Unexpected::Unsigned(*value),
        JsonItem::Negative { value, .. } => Unexpected::Signed(*value),
        JsonItem::Float { text, .. } => Unexpected::Float(text.parse().unwrap_or_default()),
        JsonItem::Text(s) => Unexpected::Str(s),
        JsonItem::Array(_) => Unexpected::Seq,
        JsonItem::Object(_) => Unexpected::Map,
    };
    let error: serde_json::Error = serde::de::Error::invalid_value(unexpected, &expected);
    error.to_string()
}

pub open spec fn hex_digit(n: int) -> char {
    if n < 10 {
        (48 + n) as char
    } else {
        (87 + n) as char
    }
}

/// How a character is written inside a JSON string.
pub open spec fn escaped_char(c: char) -> Seq<char> {
    let n = c as int;
    if c == '"' {
        seq!['\\', '"']
    } else if c == '\\' {
        seq!['\\', '\\']
    } else if n == 8 {
        seq!['\\', 'b']
    } else if n == 9 {
        seq!['\\', 't']
    } else if n == 10 {
        seq!['\\', 'n']
    } else if n == 12 {
        seq!['\\', 'f']
    } else if n == 13 {
        seq!['\\', 'r']
    } else if n < 32 {
        seq!['\\', 'u', '0', '0', hex_digit(n / 16), hex_digit(n % 16)]
    } else {
        seq![c]
    }
}

pub open spec fn escaped(s: Seq<char>) -> Seq<char>
    decreases s.len(),
{
    if s.len() == 0 {
        Seq::empty()
    } else {
        escaped(s.drop_last()) + escaped_char(s.last())
    }
}

/// `s` as a JSON string.
pub open spec fn string_text(s: Seq<char>) -> Seq<char> {
    seq!['"'] + escaped(s) + seq!['"']
}

/// The text of a `serde_json::Value` that holds the string `s`: between quotes, with quotes,
/// backslashes and the control characters below the space escaped, everything else as it is.
#[verifier::external_body]
pub(crate) fn write_string(s: &str) -> (text: String)
    ensures
        text@ == string_text(s@),
{
    Value::from(s).to_string()
}

/// How a value is written.
pub open spec fn item_text(item: ItemView) -> Seq<char> {
    match item {
        ItemView::Null => "null"@,
        ItemView::Bool(b) => bool_text(b),
        ItemView::Unsigned { value, .. } => decimal(value as nat),
        ItemView::Negative { value, .. } => decimal_int(value as int),
        ItemView::Float { text, .. } => text,
        ItemView::Text(s) => string_text(s),
        ItemView::Array(s) => s,
        ItemView::Object(s) => s,
    }
}

pub fn write_item(item: &JsonItem) -> (text: String)
    ensures
        text@ == item_text(item@),
{
    match item {
        JsonItem::Null => "null".to_owned(),
        JsonItem::Bool(b) => write_bool(*b),
        JsonItem::Unsigned { value, .. } => text::decimal_of(*value),
        JsonItem::Negative { value, .. } => text::decimal_of_int(*value),
        JsonItem::Float { text, .. } => text.clone(),
        JsonItem::Text(s) => write_string(s),
        JsonItem::Array(s) => s.clone(),
        JsonItem::Object(s) => s.clone(),
    }
}

pub open spec fn bool_text(b: bool) -> Seq<char> {
    if b {
        "true"@
    } else {
        "false"@
    }
}

pub fn write_bool(b: bool) -> (text: String)
    ensures
        text@ == bool_text(b),
{
    if b {
        "true".to_owned()
    } else {
        "false".to_owned()
    }
}

pub open spec fn opt_int_text(o: Option<int>) -> Seq<char> {
    match o {
        Some(n) => decimal_int(n),
        None => "null"@,
    }
}

pub open spec fn opt_string_text(o: Option<Seq<char>>) -> Seq<char> {
    match o {
        Some(s) => string_text(s),
        None => "null"@,
    }
}

pub open spec fn int_of_u64(o: Option<u64>) -> Option<int> {
    match o {
        Some(n) => Some(n as int),
        None => None,
    }
}

pub open spec fn int_of_i32(o: Option<i32>) -> Option<int> {
    match o {
        Some(n) => Some(n as int),
        None => None,
    }
}

pub open spec fn int_of_u32(o: Option<u32>) -> Option<int> {
    match o {
        Some(n) => Some(n as int),
        None => None,
    }
}

pub fn write_opt_u64(o: Option<u64>) -> (text: String)
    ensures
        text@ == opt_int_text(int_of_u64(o)),
{
    match o {
        Some(n) => text::decimal_of(n),
        None => "null".to_owned(),
    }
}

pub fn write_opt_u32(o: Option<u32>) -> (text: String)
    ensures
        text@ == opt_int_text(int_of_u32(o)),
{
    match o {
        Some(n) => text::decimal_of(n as u64),
        None => "null".to_owned(),
    }
}

pub fn write_opt_i32(o: Option<i32>) -> (text: String)
    ensures
        text@ == opt_int_text(int_of_i32(o)),
{
    match o {
        Some(n) => text::decimal_of_int(n as i64),
        None => "null".to_owned(),
    }
}

pub fn write_opt_string(o: &Option<String>) -> (text: String)
    ensures
        text@ == opt_string_text(opt_view(*o)),
{
    match o {
        Some(s) => write_string(s),
        None => "null".to_owned(),
    }
}

/// The parts, with `,` between them.
pub open spec fn listed(parts: Seq<Seq<char>>) -> Seq<char>
    decreases parts.len(),
{
    if parts.len() == 0 {
        Seq::empty()
    } else if parts.len() == 1 {
        parts[0]
    } else {
        listed(parts.drop_last()) + seq![','] + parts.last()
    }
}

/// A member of an object: its name and its value as they are written.
pub open spec fn member_text(member: (Seq<char>, Seq<char>)) -> Seq<char> {
    seq!['"'] + member.0 + seq!['"', ':'] + member.1
}

/// An object with these members, whose names need no escaping.
pub open spec fn object_text(members: Seq<(Seq<char>, Seq<char>)>) -> Seq<char> {
    seq!['{'] + listed(members.map_values(|m: (Seq<char>, Seq<char>)| member_text(m))) + seq!['}']
}

pub open spec fn array_text(items: Seq<Seq<char>>) -> Seq<char> {
    seq!['['] + listed(items) + seq![']']
}

pub open spec fn member_views(members: Seq<(&'static str, String)>) -> Seq<
    (Seq<char>, Seq<char>),
> {
    members.map_values(|m: (&'static str, String)| (m.0@, m.1@))
}

pub fn write_object(members: &Vec<(&'static str, String)>) -> (text: String)
    ensures
        text@ == object_text(member_views(members@)),
{
    let ghost parts = member_views(members@).map_values(
        |m: (Seq<char>, Seq<char>)| member_text(m),
    );
    let mut text = String::new();
    text.push('{');
    let mut i: usize = 0;
    assert(parts.take(0) =~= Seq::<Seq<char>>::empty());
    assert(text@ =~= seq!['{'] + listed(parts.take(0)));
    while i < members.len()
        invariant
            i <= members@.len(),
            parts == member_views(members@).map_values(
                |m: (Seq<char>, Seq<char>)| member_text(m),
            ),
            text@ == seq!['{'] + listed(parts.take(i as int)),
        decreases members@.len() - i,
    {
        let ghost before = text@;
        if i > 0 {
            text.push(',');
        }
        text.push('"');
        text.append(members[i].0);
        text.push('"');
        text.push(':');
        text.append(&members[i].1);
        proof {
            let taken = parts.take(i as int + 1);
            assert(taken.drop_last() =~= parts.take(i as int));
            assert(taken.last() == member_text((members@[i as int].0@, members@[i as int].1@)));
            assert(text@ =~= seq!['{'] + listed(taken));
        }
        i += 1;
    }
    text.push('}');
    assert(parts.take(i as int) =~= parts);
    assert(text@ =~= object_text(member_views(members@)));
    text
}

/// `sorted` with one more member, behind those whose names do not come after its name.
pub open spec fn placed(sorted: Seq<(Seq<char>, Seq<char>)>, member: (Seq<char>, Seq<char>)) -> Seq<
    (Seq<char>, Seq<char>),
>
    decreases sorted.len(),
{
    if sorted.len() == 0 {
        seq![member]
    } else if in_order(sorted.last().0, member.0) {
        sorted.push(member)
    } else {
        placed(sorted.drop_last(), member).push(sorted.last())
    }
}

/// The members in the order of their names.
pub open spec fn by_name(members: Seq<(Seq<char>, Seq<char>)>) -> Seq<(Seq<char>, Seq<char>)>
    decreases members.len(),
{
    if members.len() == 0 {
        Seq::empty()
    } else {
        placed(by_name(members.drop_last()), members.last())
    }
}

/// The order in which the members of an object are written: as they are given, or by their names.
#[derive(Clone, Copy, Debug, PartialEq, Eq, Structural)]
pub enum MemberOrder {
    AsGiven,
    ByName,
}

/// An object with these members, which have different names.
pub open spec fn members_text(order: MemberOrder, members: Seq<(Seq<char>, Seq<char>)>) -> Seq<
    char,
> {
    match order {
        MemberOrder::AsGiven => object_text(members),
        MemberOrder::ByName => object_text(by_name(members)),
    }
}

fn place(sorted: &mut Vec<(&'static str, String)>, member: (&'static str, String))
    ensures
        member_views(final(sorted)@) == placed(
            member_views(old(sorted)@),
            (member.0@, member.1@),
        ),
{
    let ghost before = member_views(sorted@);
    let ghost added = (member.0@, member.1@);
    let mut i: usize = sorted.len();
    assert(before.take(i as int) =~= before);
    assert(before.skip(i as int) =~= Seq::empty());
    assert(placed(before, added) =~= placed(before, added) + before.skip(i as int));
    while i > 0 && !text::ordered(sorted[i - 1].0, member.0)
        invariant
            i <= sorted@.len(),
            before == member_views(sorted@),
            added == (member.0@, member.1@),
            placed(before, added) == placed(before.take(i as int), added) + before.skip(i as int),
        decreases i,
    {
        proof {
            let head = before.take(i as int);
            assert(head.last() == before[i as int - 1]);
            assert(head.drop_last() =~= before.take(i as int - 1));
            assert(placed(head, added) == placed(head.drop_last(), added).push(head.last()));
            assert(placed(head.drop_last(), added).push(head.last()) + before.skip(i as int)
                =~= placed(before.take(i as int - 1), added) + before.skip(i as int - 1));
        }
        i -= 1;
    }
    proof {
        let head = before.take(i as int);
        if i > 0 {
            assert(head.last() == before[i as int - 1]);
        } else {
            assert(head =~= Seq::empty());
            assert(seq![added] =~= head.push(added));
        }
        assert(placed(head, added) == head.push(added));
    }
    let ghost given = sorted@;
    sorted.insert(i, member);
    assert(sorted@ == given.insert(i as int, member));
    assert(member_views(sorted@) =~= before.take(i as int).push(added) + before.skip(i as int));
}

/// Writes an object with these members, which have different names.
pub fn write_members(order: MemberOrder, members: &Vec<(&'static str, String)>) -> (text: String)
    ensures
        text@ == members_text(order, member_views(members@)),
{
    if matches!(order, MemberOrder::AsGiven) {
        return write_object(members);
    }
    let ghost want = member_views(members@);
    let mut sorted: Vec<(&'static str, String)> = Vec::new();
    let mut i: usize = 0;
    assert(want.take(0) =~= Seq::empty());
    assert(member_views(sorted@) =~= Seq::empty());
    while i < members.len()
        invariant
            i <= members@.len(),
            want == member_views(members@),
            member_views(sorted@) == by_name(want.take(i as int)),
        decreases members@.len() - i,
    {
        place(&mut sorted, (members[i].0, members[i].1.clone()));
        i += 1;
        proof {
            assert(want.take(i as int).drop_last() =~= want.take(i as int - 1));
            assert(want.take(i as int).last() == want[i as int - 1]);
        }
    }
    assert(want.take(i as int) =~= want);
    write_object(&sorted)
}

proof fn lemma_placed(sorted: Seq<(Seq<char>, Seq<char>)>, member: (Seq<char>, Seq<char>))
    requires
        forall|i: int, j: int|
            0 <= i < j < sorted.len() ==> in_order(#[trigger] sorted[i].0, #[trigger] sorted[j].0),
    ensures
        placed(sorted, member).to_multiset() == sorted.to_multiset().insert(member),
        forall|i: int, j: int|
            0 <= i < j < placed(sorted, member).len() ==> in_order(
                #[trigger] placed(sorted, member)[i].0,
                #[trigger] placed(sorted, member)[j].0,
            ),
    decreases sorted.len(),
{
    broadcast use vstd::seq_lib::group_to_multiset_ensures;

    let result = placed(sorted, member);
    if sorted.len() == 0 {
        assert(result =~= sorted.push(member));
    } else {
        let last = sorted.last();
        let head = sorted.drop_last();
        if in_order(last.0, member.0) {
            assert forall|i: int, j: int| 0 <= i < j < result.len() implies in_order(
                #[trigger] result[i].0,
                #[trigger] result[j].0,
            ) by {
                if j == sorted.len() && i < sorted.len() - 1 {
                    assert(in_order(sorted[i].0, sorted[sorted.len() - 1].0));
                    text::lemma_order_transitive(sorted[i].0, last.0, member.0);
                }
            }
        } else {
            text::lemma_order_total(last.0, member.0);
            assert forall|i: int, j: int| 0 <= i < j < head.len() implies in_order(
                #[trigger] head[i].0,
                #[trigger] head[j].0,
            ) by {
                assert(in_order(sorted[i].0, sorted[j].0));
            }
            lemma_placed(head, member);
            let start = placed(head, member);
            assert(sorted =~= head.push(last));
            assert forall|i: int| 0 <= i < start.len() implies in_order(
                #[trigger] start[i].0,
                last.0,
            ) by {
                assert(start.to_multiset().count(start[i]) > 0);
                if start[i] != member {
                    assert(head.to_multiset().count(start[i]) > 0);
                    let k = choose|k: int| 0 <= k < head.len() && head[k] == start[i];
                    assert(in_order(sorted[k].0, sorted[sorted.len() - 1].0));
                }
            }
            assert(result == start.push(last));
            assert(result.to_multiset() =~= sorted.to_multiset().insert(member));
        }
    }
}

/// Members that are written by their names are all written, each once, in the order of the names.
pub proof fn law_members_are_in_order(members: Seq<(Seq<char>, Seq<char>)>)
    ensures
        by_name(members).to_multiset() == members.to_multiset(),
        forall|i: int, j: int|
            0 <= i < j < by_name(members).len() ==> in_order(
                #[trigger] by_name(members)[i].0,
                #[trigger] by_name(members)[j].0,
            ),
    decreases members.len(),
{
    broadcast use vstd::seq_lib::group_to_multiset_ensures;

    if members.len() > 0 {
        law_members_are_in_order(members.drop_last());
        lemma_placed(by_name(members.drop_last()), members.last());
        assert(members =~= members.drop_last().push(members.last()));
    } else {
        assert(by_name(members) =~= members);
    }
}

pub fn write_array(items: &Vec<String>) -> (text: String)
    ensures
        text@ == array_text(text::views(items@)),
{
    let ghost parts = text::views(items@);
    let mut text = String::new();
    text.push('[');
    let mut i: usize = 0;
    assert(parts.take(0) =~= Seq::<Seq<char>>::empty());
    assert(text@ =~= seq!['['] + listed(parts.take(0)));
    while i < items.len()
        invariant
            i <= items@.len(),
            parts == text::views(items@),
            text@ == seq!['['] + listed(parts.take(i as int)),
        decreases items@.len() - i,
    {
        if i > 0 {
            text.push(',');
        }
        text.append(&items[i]);
        proof {
            let taken = parts.take(i as int + 1);
            assert(taken.drop_last() =~= parts.take(i as int));
            assert(taken.last() == items@[i as int]@);
            assert(text@ =~= seq!['['] + listed(taken));
        }
        i += 1;
    }
    text.push(']');
    assert(parts.take(i as int) =~= parts);
    text
}

proof fn lemma_listed_step(parts: Seq<Seq<char>>, part: Seq<char>)
    requires
        parts.len() > 0,
    ensures
        listed(parts.push(part)) == listed(parts) + seq![','] + part,
{
    assert(parts.push(part).drop_last() =~= parts);
    assert(parts.push(part).last() == part);
}

proof fn lemma_listed_holds(parts: Seq<Seq<char>>, i: int) -> (at: int)
    requires
        0 <= i < parts.len(),
    ensures
        text::stands_at(listed(parts), parts[i], at),
        at > 0 ==> listed(parts)[at - 1] == ',',
        at + parts[i].len() < listed(parts).len() ==> listed(parts)[at + parts[i].len()] == ',',
    decreases parts.len(),
{
    let whole = listed(parts);
    if parts.len() == 1 {
        assert(whole.subrange(0, whole.len() as int) =~= parts[0]);
        0
    } else {
        let front = parts.drop_last();
        let head = listed(front);
        if i == parts.len() - 1 {
            let at = head.len() as int + 1;
            assert(whole.subrange(at, at + parts[i].len()) =~= parts[i]);
            at
        } else {
            assert(front[i] == parts[i]);
            let at = lemma_listed_holds(front, i);
            assert(whole.subrange(at, at + parts[i].len()) =~= head.subrange(
                at,
                at + parts[i].len(),
            ));
            at
        }
    }
}

/// Every member of an object stands in its text, with its name between quotes and its value behind a
/// colon, and so does every item of an array; braces and brackets stand around them.
pub proof fn law_members_stand_in_the_text(
    members: Seq<(Seq<char>, Seq<char>)>,
    items: Seq<Seq<char>>,
    i: int,
    j: int,
)
    requires
        0 <= i < members.len(),
        0 <= j < items.len(),
    ensures
        contains_text(
            object_text(members),
            seq!['"'] + members[i].0 + seq!['"', ':'] + members[i].1,
        ),
        object_text(members)[0] == '{' && object_text(members).last() == '}',
        contains_text(array_text(items), items[j]),
        array_text(items)[0] == '[' && array_text(items).last() == ']',
        object_text(Seq::empty()) == seq!['{', '}'],
        array_text(Seq::empty()) == seq!['[', ']'],
{
    let parts = members.map_values(|m: (Seq<char>, Seq<char>)| member_text(m));
    assert(parts[i] == member_text(members[i]));
    let at = lemma_listed_holds(parts, i);
    let object = object_text(members);
    assert(object.subrange(at + 1, at + 1 + parts[i].len()) =~= listed(parts).subrange(
        at,
        at + parts[i].len(),
    ));
    assert(text::stands_at(object, parts[i], at + 1));
    let to = lemma_listed_holds(items, j);
    let array = array_text(items);
    assert(array.subrange(to + 1, to + 1 + items[j].len()) =~= listed(items).subrange(
        to,
        to + items[j].len(),
    ));
    assert(text::stands_at(array, items[j], to + 1));
    let none = Seq::<(Seq<char>, Seq<char>)>::empty();
    assert(none.map_values(|m: (Seq<char>, Seq<char>)| member_text(m)) =~= Seq::<Seq<char>>::empty());
    assert(object_text(none) =~= seq!['{', '}']);
    assert(array_text(Seq::empty()) =~= seq!['[', ']']);
}

/// One more item is written behind the others, with a comma between them, and the others as they
/// were.
pub proof fn law_items_are_written_in_order(items: Seq<Seq<char>>, item: Seq<char>)
    requires
        items.len() > 0,
    ensures
        array_text(items.push(item)) == array_text(items).drop_last() + seq![','] + item + seq![']'],
        array_text(seq![item]) == seq!['['] + item + seq![']'],
{
    lemma_listed_step(items, item);
    assert(array_text(items.push(item)) =~= array_text(items).drop_last() + seq![','] + item + seq![
        ']',
    ]);
}

/// A whole number is told by its value, whatever its sign, and is written as it was read.
pub proof fn law_whole_numbers_are_read_and_written(n: u64, bits: u64)
    ensures
        number_of(bits, decimal(n as nat)) == (ItemView::Unsigned { value: n, bits }),
        item_text(number_of(bits, decimal(n as nat))) == decimal(n as nat),
        0 < n <= 0x8000_0000_0000_0000 ==> number_of(bits, seq!['-'] + decimal(n as nat)) == (
        ItemView::Negative { value: (-(n as int)) as i64, bits }),
{
    text::law_written_numbers_read_back(n as nat, u64::MAX as int);
    text::law_written_numbers_read_back(n as nat, 0x8000_0000_0000_0000);
    let digits = decimal(n as nat);
    let negative = seq!['-'] + digits;
    assert(negative[0] == '-');
    assert(negative.skip(1) =~= digits);
    assert(digits.len() > 0 && text::is_digit(digits[0]));
}

/// Strings and numbers are told apart by what they are, and the rest by how it is written.
pub proof fn law_values_are_told_apart(raw: RawItemView)
    ensures
        raw.string matches Some(s) ==> item_of(raw) == ItemView::Text(s),
        raw.string is None ==> (raw.bits matches Some(bits) ==> item_of(raw) == number_of(
            bits,
            raw.text,
        )),
        raw.string is None && raw.bits is None ==> {
            &&& raw.text == "true"@ ==> item_of(raw) == ItemView::Bool(true)
            &&& raw.text == "false"@ ==> item_of(raw) == ItemView::Bool(false)
            &&& raw.text == "null"@ ==> item_of(raw) == ItemView::Null
            &&& raw.text.len() > 0 && raw.text[0] == '[' ==> item_of(raw) == ItemView::Array(
                raw.text,
            )
            &&& raw.text.len() > 0 && raw.text[0] == '{' ==> item_of(raw) == ItemView::Object(
                raw.text,
            )
        },
        item_text(ItemView::Null) == "null"@,
        item_text(ItemView::Bool(true)) == "true"@,
        item_text(ItemView::Bool(false)) == "false"@,
{
    reveal_strlit("true");
    reveal_strlit("false");
    reveal_strlit("null");
    reveal_strlit("[");
    reveal_strlit("{");
    assert("true"@[0] == 't' && "false"@[0] == 'f' && "null"@[0] == 'n');
    assert("["@[0] == '[' && "{"@[0] == '{');
    assert(raw.text.len() > 0 ==> raw.text.take(1)[0] == raw.text[0]);
    if raw.text.len() > 0 && raw.text[0] == '[' {
        assert(raw.text.take(1) =~= "["@);
    }
    if raw.text.len() > 0 && raw.text[0] == '{' {
        assert(raw.text.take(1) =~= "{"@);
    }
}

/// A document has the values that were read, each under its name or in its place.
pub proof fn law_documents_hold_what_was_read(raw: RawDocumentView, i: int)
    ensures
        raw.object matches Some(members) ==> {
            &&& document_of(raw).kind == DocumentKind::Object
            &&& document_of(raw).entries.len() == members.len()
            &&& 0 <= i < members.len() ==> document_of(raw).entries[i].0 == members[i].0
                && document_of(raw).entries[i].1 == item_of(members[i].1)
        },
        raw.object is None ==> (raw.array matches Some(elements) ==> {
            &&& document_of(raw).kind == DocumentKind::Array
            &&& document_of(raw).entries.len() == elements.len()
            &&& 0 <= i < elements.len() ==> document_of(raw).entries[i].1 == item_of(elements[i])
        }),
        raw.object is None && raw.array is None ==> {
            &&& document_of(raw).kind == DocumentKind::Scalar
            &&& document_of(raw).entries.len() == 1
            &&& document_of(raw).entries[0].1 == item_of(raw.whole)
        },
{
}

/// What is absent is written as `null`, and what is there as it is.
pub proof fn law_absent_values_are_null(n: u64, m: i32, s: Seq<char>)
    ensures
        opt_int_text(int_of_u64(None)) == "null"@,
        opt_int_text(int_of_i32(None)) == "null"@,
        opt_int_text(int_of_u32(None)) == "null"@,
        opt_string_text(None) == "null"@,
        opt_int_text(int_of_u64(Some(n))) == decimal(n as nat),
        opt_int_text(int_of_i32(Some(m))) == decimal_int(m as int),
        opt_string_text(Some(s)) == string_text(s),
{
    text::law_written_numbers_read_back(n as nat, u64::MAX as int);
}

} // verus!
