//! Calibration profiles: how their files are named, listed and renamed.
use crate::paths;
use crate::paths::joined;
use crate::resources::ResourceLocator;
use crate::text;
use crate::text::{
    decimal_int, first_index, in_order, is_white_space, lemma_order_total, lemma_order_transitive,
    trimmed, without_suffix,
};
use crate::ui_state::ProfileMenuItem;
use vstd::prelude::*;

verus! {

#[derive(Debug)]
pub struct ProfileStore {
    pub calibration_dir: String,
}

/// The name of a profile: what stands before the first underscore of its file name, or the file
/// name without `.json` where there is none.
pub open spec fn base_of(filename: Seq<char>) -> Seq<char> {
    if filename.contains('_') {
        filename.take(first_index(filename, '_'))
    } else {
        without_suffix(filename, ".json"@)
    }
}

/// What follows the first underscore of a profile's file name.
pub open spec fn suffix_of(filename: Seq<char>) -> Seq<char> {
    if filename.contains('_') {
        filename.skip(first_index(filename, '_') + 1)
    } else {
        "profile.json"@
    }
}

/// Characters that a file name must not hold.
pub open spec fn is_reserved(c: char) -> bool {
    c == '\\' || c == '/' || c == ':' || c == '*' || c == '?' || c == '"' || c == '<' || c == '>'
        || c == '|'
}

pub open spec fn without_reserved(value: Seq<char>) -> Seq<char> {
    value.map_values(|c: char| if is_reserved(c) { '_' } else { c })
}

/// `value` as the first part of a file name: reserved characters replaced, no white space at the
/// ends, never empty.
pub open spec fn sanitized(value: Seq<char>) -> Seq<char> {
    let base = trimmed(without_reserved(value));
    if base.len() == 0 {
        "profile"@
    } else {
        base
    }
}

/// The file name of a profile called `base` with `suffix` behind its name.
pub open spec fn file_named(base: Seq<char>, suffix: Seq<char>) -> Seq<char> {
    sanitized(base) + seq!['_'] + suffix
}

/// The numbers in decimal, with `-` between them.
pub open spec fn dashed(counts: Seq<i32>) -> Seq<char>
    decreases counts.len(),
{
    if counts.len() == 0 {
        Seq::empty()
    } else if counts.len() == 1 {
        decimal_int(counts[0] as int)
    } else {
        dashed(counts.drop_last()) + seq!['-'] + decimal_int(counts.last() as int)
    }
}

/// The frame counts of a calibration as they stand in its file name.
pub open spec fn frame_counts_text(counts: Seq<i32>) -> Seq<char> {
    if counts.len() == 0 {
        "0f"@
    } else {
        dashed(counts) + seq!['f']
    }
}

/// The extension of a file name: what follows its last dot, unless the name starts there.
pub open spec fn extension_of(name: Seq<char>) -> Option<Seq<char>>
    decreases name.len(),
{
    let parts = text::split_on(name, '.');
    if parts.len() < 2 || (parts.len() == 2 && parts[0].len() == 0) || name == seq!['.', '.'] {
        None
    } else {
        Some(parts.last())
    }
}

fn join_counts(counts: &Vec<i32>) -> (s: String)
    ensures
        s@ == dashed(counts@),
{
    let mut s = String::new();
    let mut i: usize = 0;
    assert(counts@.take(0) =~= Seq::<i32>::empty());
    while i < counts.len()
        invariant
            i <= counts@.len(),
            s@ == dashed(counts@.take(i as int)),
        decreases counts@.len() - i,
    {
        let ghost before = s@;
        if i > 0 {
            s.push('-');
        }
        s.append(&text::decimal_of_int(counts[i] as i64));
        proof {
            let taken = counts@.take(i as int + 1);
            assert(taken.drop_last() =~= counts@.take(i as int));
            if i > 0 {
                assert(before.push('-') =~= before + seq!['-']);
            }
            assert(s@ =~= dashed(taken));
        }
        i += 1;
    }
    assert(counts@.take(i as int) =~= counts@);
    s
}

fn replace_reserved(value: &str) -> (r: String)
    ensures
        r@ == without_reserved(value@),
{
    let chars = text::to_chars(value);
    let mut r = String::new();
    let mut i: usize = 0;
    while i < chars.len()
        invariant
            i <= chars@.len(),
            chars@ == value@,
            r@ == without_reserved(value@).take(i as int),
        decreases chars@.len() - i,
    {
        let c: char = chars[i];
        let reserved = c == '\\' || c == '/' || c == ':' || c == '*' || c == '?' || c == '"' || c
            == '<' || c == '>' || c == '|';
        r.push(if reserved { '_' } else { c });
        i += 1;
        assert(r@ =~= without_reserved(value@).take(i as int));
    }
    assert(r@ =~= without_reserved(value@));
    r
}

/// A name that a file can have.
pub fn sanitize_profile_base(value: &str) -> (r: String)
    ensures
        r@ == sanitized(value@),
{
    let base = text::trim(&replace_reserved(value));
    if base.as_str().is_empty() {
        "profile".to_owned()
    } else {
        base
    }
}

fn named(base: &str, suffix: &str) -> (filename: String)
    ensures
        filename@ == file_named(base@, suffix@),
{
    let mut filename = sanitize_profile_base(base);
    filename.push('_');
    filename.append(suffix);
    assert(filename@ =~= file_named(base@, suffix@));
    filename
}

#[must_use]
pub fn calibration_basename(filename: &str) -> (base: String)
    ensures
        base@ == base_of(filename@),
{
    let chars = text::to_chars(filename);
    let n: usize = text::find_char(&chars, '_');
    proof {
        text::lemma_first_index(filename@, '_');
    }
    if n < chars.len() {
        let base = text::from_char_range(&chars, 0, n);
        assert(base@ =~= filename@.take(n as int));
        base
    } else {
        text::strip_suffix(filename, ".json")
    }
}

/// A file in the directory of profiles. `frame_counts` holds the cycle lengths of its calibration
/// where it can be read.
pub struct ProfileFile {
    pub filename: String,
    pub frame_counts: Option<Vec<i32>>,
}

/// Whether the file is listed: a `.json` file with a readable calibration.
pub open spec fn is_listed(file: ProfileFile) -> bool {
    extension_of(file.filename@) == Some("json"@) && file.frame_counts is Some
}

/// What a menu item says.
#[verifier::ext_equal]
pub struct ProfileView {
    pub filename: Seq<char>,
    pub basename: Seq<char>,
    pub total_frames: Seq<char>,
    pub resolution: Seq<char>,
    pub is_active: bool,
}

pub open spec fn item_view(item: ProfileMenuItem) -> ProfileView {
    ProfileView {
        filename: item.filename@,
        basename: item.basename@,
        total_frames: item.total_frames_str@,
        resolution: item.resolution@,
        is_active: item.is_active,
    }
}

pub open spec fn item_views(items: Seq<ProfileMenuItem>) -> Seq<ProfileView> {
    items.map_values(|item: ProfileMenuItem| item_view(item))
}

/// What the menu says of a listed file.
pub open spec fn described(file: ProfileFile, active: Option<Seq<char>>) -> ProfileView {
    ProfileView {
        filename: file.filename@,
        basename: base_of(file.filename@),
        total_frames: dashed(file.frame_counts->0@) + seq!['f'],
        resolution: "\u{81ea}\u{9002}\u{5e94}"@,
        is_active: active == Some(file.filename@),
    }
}

/// `items` with `item` behind the last of those that do not come after it.
pub open spec fn inserted(items: Seq<ProfileView>, item: ProfileView) -> Seq<ProfileView>
    decreases items.len(),
{
    if items.len() == 0 || in_order(items.last().filename, item.filename) {
        items.push(item)
    } else {
        inserted(items.drop_last(), item).push(items.last())
    }
}

/// The profiles among `files`, in the order of their file names.
pub open spec fn listing(files: Seq<ProfileFile>, active: Option<Seq<char>>) -> Seq<ProfileView>
    decreases files.len(),
{
    if files.len() == 0 {
        Seq::empty()
    } else {
        let rest = listing(files.drop_last(), active);
        if is_listed(files.last()) {
            inserted(rest, described(files.last(), active))
        } else {
            rest
        }
    }
}

fn has_json_extension(filename: &str) -> (b: bool)
    ensures
        b == (extension_of(filename@) == Some("json"@)),
{
    let parts = text::split(filename, '.');
    let ghost split = text::split_on(filename@, '.');
    assert(split.len() == parts@.len());
    assert(split[0] == parts@[0]@ && split.last() == parts@.last()@);
    proof {
        reveal_strlit("..");
        assert(".."@ =~= seq!['.', '.']);
    }
    if parts.len() < 2 || (parts.len() == 2 && parts[0].as_str().is_empty()) || text::same(
        filename,
        "..",
    ) {
        return false;
    }
    text::same(&parts[parts.len() - 1], "json")
}

proof fn lemma_inserted(items: Seq<ProfileView>, item: ProfileView, n: int)
    requires
        0 <= n <= items.len(),
        n > 0 ==> in_order(items[n - 1].filename, item.filename),
        forall|k: int| n <= k < items.len() ==> !in_order(#[trigger] items[k].filename, item.filename),
    ensures
        inserted(items, item) == items.insert(n, item),
    decreases items.len(),
{
    if n == items.len() {
        assert(items.insert(n, item) =~= items.push(item));
    } else {
        assert(items.last() == items[items.len() - 1]);
        assert forall|k: int| n <= k < items.len() - 1 implies !in_order(
            #[trigger] items.drop_last()[k].filename,
            item.filename,
        ) by {
            assert(items.drop_last()[k] == items[k]);
        }
        lemma_inserted(items.drop_last(), item, n);
        assert(items.insert(n, item) =~= items.drop_last().insert(n, item).push(items.last()));
    }
}

impl ProfileStore {
    #[must_use]
    pub fn new(resources: &ResourceLocator) -> (store: Self)
        ensures
            store.calibration_dir@ == resources.calibration_dir@,
    {
        ProfileStore { calibration_dir: resources.calibration_dir() }
    }

    #[must_use]
    pub fn calibration_path(&self, filename: &str) -> (path: String)
        ensures
            path@ == joined(self.calibration_dir@, filename@),
    {
        paths::join(&self.calibration_dir, filename)
    }

    /// The profiles among the files of the directory, in the order of their file names.
    #[must_use]
    pub fn list(files: &Vec<ProfileFile>, active_profile: Option<&str>) -> (profiles: Vec<
        ProfileMenuItem,
    >)
        ensures
            item_views(profiles@) == listing(
                files@,
                match active_profile {
                    Some(name) => Some(name@),
                    None => None,
                },
            ),
    {
        let ghost active = match active_profile {
            Some(name) => Some(name@),
            None => None,
        };
        let mut profiles: Vec<ProfileMenuItem> = Vec::new();
        let mut i: usize = 0;
        assert(files@.take(0) =~= Seq::<ProfileFile>::empty());
        assert(item_views(profiles@) =~= listing(files@.take(0), active));
        while i < files.len()
            invariant
                i <= files@.len(),
                active == (match active_profile {
                    Some(name) => Some(name@),
                    None => None,
                }),
                item_views(profiles@) == listing(files@.take(i as int), active),
            decreases files@.len() - i,
        {
            let ghost before = item_views(profiles@);
            let file = &files[i];
            proof {
                assert(files@.take(i as int + 1).drop_last() =~= files@.take(i as int));
            }
            if let Some(counts) = &file.frame_counts {
                if has_json_extension(&file.filename) {
                    let mut total_frames_str = join_counts(counts);
                    total_frames_str.push('f');
                    let is_active = match active_profile {
                        Some(name) => text::same(name, &file.filename),
                        None => false,
                    };
                    let item = ProfileMenuItem {
                        filename: file.filename.clone(),
                        basename: calibration_basename(&file.filename),
                        total_frames_str,
                        resolution: "\u{81ea}\u{9002}\u{5e94}".to_owned(),
                        is_active,
                    };
                    let mut n: usize = profiles.len();
                    while n > 0 && !text::ordered(&profiles[n - 1].filename, &item.filename)
                        invariant
                            n <= profiles@.len(),
                            forall|k: int|
                                n <= k < profiles@.len() ==> !in_order(
                                    #[trigger] item_views(profiles@)[k].filename,
                                    item.filename@,
                                ),
                        decreases n,
                    {
                        n -= 1;
                    }
                    proof {
                        assert(item_view(item) =~= described(*file, active));
                        if n > 0 {
                            assert(before[n - 1] == item_view(profiles@[n - 1]));
                        }
                        lemma_inserted(before, item_view(item), n as int);
                        assert(item_views(profiles@.insert(n as int, item)) =~= before.insert(
                            n as int,
                            item_view(item),
                        ));
                    }
                    profiles.insert(n, item);
                }
            }
            i += 1;
        }
        assert(files@.take(i as int) =~= files@);
        profiles
    }

    /// The file name that renaming profile `old` to `new_base` leads to: the new name, and behind
    /// it what stood behind the old one.
    pub fn renamed(old: &str, new_base: &str) -> (filename: String)
        ensures
            filename@ == file_named(new_base@, suffix_of(old@)),
    {
        let chars = text::to_chars(old);
        let n: usize = text::find_char(&chars, '_');
        proof {
            text::lemma_first_index(old@, '_');
        }
        if n < chars.len() {
            let suffix = text::from_char_range(&chars, n + 1, chars.len());
            assert(suffix@ =~= old@.skip(n as int + 1));
            named(new_base, &suffix)
        } else {
            named(new_base, "profile.json")
        }
    }

    /// The file name under which a calibration with these cycle lengths is saved.
    pub fn saved_filename(basename: &str, frame_counts: &Vec<i32>) -> (filename: String)
        ensures
            filename@ == file_named(basename@, frame_counts_text(frame_counts@) + ".json"@),
    {
        let mut suffix = if frame_counts.len() == 0 {
            "0f".to_owned()
        } else {
            let mut counts = join_counts(frame_counts);
            counts.push('f');
            assert(counts@ =~= dashed(frame_counts@) + seq!['f']);
            counts
        };
        suffix.append(".json");
        named(basename, &suffix)
    }
}

pub open spec fn is_sorted(items: Seq<ProfileView>) -> bool {
    forall|i: int, j: int|
        0 <= i <= j < items.len() ==> in_order(
            #[trigger] items[i].filename,
            #[trigger] items[j].filename,
        )
}

proof fn lemma_inserted_sorted(items: Seq<ProfileView>, item: ProfileView)
    requires
        is_sorted(items),
    ensures
        is_sorted(inserted(items, item)),
        inserted(items, item).len() == items.len() + 1,
        forall|x: ProfileView|
            #[trigger] inserted(items, item).contains(x) <==> items.contains(x) || x == item,
    decreases items.len(),
{
    let result = inserted(items, item);
    lemma_order_total(item.filename, item.filename);
    if items.len() == 0 || in_order(items.last().filename, item.filename) {
        assert forall|i: int, j: int| 0 <= i <= j < result.len() implies in_order(
            #[trigger] result[i].filename,
            #[trigger] result[j].filename,
        ) by {
            if j == items.len() && i < j {
                assert(in_order(items[i].filename, items[items.len() - 1].filename));
                lemma_order_transitive(
                    items[i].filename,
                    items.last().filename,
                    item.filename,
                );
            }
        }
        assert forall|x: ProfileView| result.contains(x) <==> items.contains(x) || x == item by {
            if items.contains(x) {
                let k = choose|k: int| 0 <= k < items.len() && items[k] == x;
                assert(result[k] == x);
            }
            if x == item {
                assert(result[items.len() as int] == x);
            }
        }
    } else {
        let head = items.drop_last();
        assert forall|i: int, j: int| 0 <= i <= j < head.len() implies in_order(
            #[trigger] head[i].filename,
            #[trigger] head[j].filename,
        ) by {
            assert(in_order(items[i].filename, items[j].filename));
        }
        lemma_inserted_sorted(head, item);
        let inner = inserted(head, item);
        let last = items.last();
        lemma_order_total(last.filename, item.filename);
        lemma_order_total(last.filename, last.filename);
        assert forall|i: int, j: int| 0 <= i <= j < result.len() implies in_order(
            #[trigger] result[i].filename,
            #[trigger] result[j].filename,
        ) by {
            if j == inner.len() && i < j {
                assert(inner.contains(inner[i]));
                if inner[i] != item {
                    assert(head.contains(inner[i]));
                    let k = choose|k: int| 0 <= k < head.len() && head[k] == inner[i];
                    assert(in_order(items[k].filename, items[items.len() - 1].filename));
                }
            } else if j < inner.len() {
                assert(result[i] == inner[i] && result[j] == inner[j]);
            }
        }
        assert forall|x: ProfileView| result.contains(x) <==> items.contains(x) || x == item by {
            if result.contains(x) {
                let k = choose|k: int| 0 <= k < result.len() && result[k] == x;
                if k < inner.len() {
                    assert(inner.contains(inner[k]));
                    assert(inner.contains(x));
                    if x != item {
                        assert(head.contains(x));
                        let m = choose|m: int| 0 <= m < head.len() && head[m] == x;
                        assert(items[m] == x);
                    }
                } else {
                    assert(items[items.len() - 1] == x);
                }
            }
            if items.contains(x) {
                let m = choose|m: int| 0 <= m < items.len() && items[m] == x;
                if m < head.len() {
                    assert(head[m] == x);
                    assert(head.contains(x));
                    assert(inner.contains(x));
                    let k = choose|k: int| 0 <= k < inner.len() && inner[k] == x;
                    assert(result[k] == x);
                } else {
                    assert(result[inner.len() as int] == x);
                }
            }
            if x == item {
                assert(inner.contains(x));
                let k = choose|k: int| 0 <= k < inner.len() && inner[k] == x;
                assert(result[k] == x);
            }
        }
    }
}

/// Profiles are listed in the order of their file names, and the listing holds what describes the
/// readable `.json` files of the directory and nothing else.
pub proof fn law_listing_is_sorted_and_complete(files: Seq<ProfileFile>, active: Option<Seq<char>>)
    ensures
        is_sorted(listing(files, active)),
        forall|x: ProfileView|
            listing(files, active).contains(x) <==> exists|i: int|
                0 <= i < files.len() && is_listed(#[trigger] files[i]) && x == described(
                    files[i],
                    active,
                ),
    decreases files.len(),
{
    if files.len() > 0 {
        let head = files.drop_last();
        law_listing_is_sorted_and_complete(head, active);
        if is_listed(files.last()) {
            lemma_inserted_sorted(listing(head, active), described(files.last(), active));
        }
        assert forall|x: ProfileView|
            listing(files, active).contains(x) <==> exists|i: int|
                0 <= i < files.len() && is_listed(#[trigger] files[i]) && x == described(
                    files[i],
                    active,
                ) by {
            if listing(head, active).contains(x) {
                let i = choose|i: int|
                    0 <= i < head.len() && is_listed(#[trigger] head[i]) && x == described(
                        head[i],
                        active,
                    );
                assert(files[i] == head[i]);
            }
            if exists|i: int|
                0 <= i < files.len() && is_listed(#[trigger] files[i]) && x == described(
                    files[i],
                    active,
                ) {
                let i = choose|i: int|
                    0 <= i < files.len() && is_listed(#[trigger] files[i]) && x == described(
                        files[i],
                        active,
                    );
                if i < head.len() {
                    assert(head[i] == files[i]);
                    assert(listing(head, active).contains(x));
                }
            }
            if is_listed(files.last()) {
                assert(files[files.len() - 1] == files.last());
            }
        }
    }
}

proof fn lemma_trim_keeps(s: Seq<char>, bad: spec_fn(char) -> bool)
    requires
        forall|i: int| 0 <= i < s.len() ==> !bad(#[trigger] s[i]),
    ensures
        forall|i: int| 0 <= i < trimmed(s).len() ==> !bad(#[trigger] trimmed(s)[i]),
        trimmed(s).len() > 0 ==> !is_white_space(trimmed(s)[0]) && !is_white_space(
            trimmed(s).last(),
        ),
    decreases s.len(),
{
    if s.len() > 0 && is_white_space(s[0]) {
        assert forall|i: int| 0 <= i < s.len() - 1 implies !bad(#[trigger] s.drop_first()[i]) by {
            assert(s.drop_first()[i] == s[i + 1]);
        }
        lemma_trim_keeps(s.drop_first(), bad);
    } else {
        lemma_trim_end_keeps(s, bad);
    }
}

proof fn lemma_trim_end_keeps(s: Seq<char>, bad: spec_fn(char) -> bool)
    requires
        forall|i: int| 0 <= i < s.len() ==> !bad(#[trigger] s[i]),
        s.len() > 0 ==> !is_white_space(s[0]),
    ensures
        forall|i: int| 0 <= i < text::trimmed_end(s).len() ==> !bad(#[trigger] text::trimmed_end(s)[i]),
        text::trimmed_end(s).len() > 0 ==> !is_white_space(text::trimmed_end(s)[0])
            && !is_white_space(text::trimmed_end(s).last()),
    decreases s.len(),
{
    if s.len() > 0 && is_white_space(s.last()) {
        assert forall|i: int| 0 <= i < s.len() - 1 implies !bad(#[trigger] s.drop_last()[i]) by {
            assert(s.drop_last()[i] == s[i]);
        }
        lemma_trim_end_keeps(s.drop_last(), bad);
    }
}

/// A name that a file can have: not empty, without reserved characters, and without white space at
/// its ends.
pub open spec fn is_clean(name: Seq<char>) -> bool {
    &&& name.len() > 0
    &&& forall|i: int| 0 <= i < name.len() ==> !is_reserved(#[trigger] name[i])
    &&& !is_white_space(name[0])
    &&& !is_white_space(name.last())
}

/// A sanitized profile name is never empty, holds no character that a file name must not hold,
/// has no white space at its ends, and sanitizing it again changes nothing. A name that is like that
/// stays as it is, and one of white space alone becomes `profile`.
pub proof fn law_sanitized_base(value: Seq<char>)
    ensures
        is_clean(sanitized(value)),
        sanitized(sanitized(value)) == sanitized(value),
        is_clean(value) ==> sanitized(value) == value,
        trimmed(value).len() == 0 ==> sanitized(value) == "profile"@,
{
    reveal_strlit("profile");
    if is_clean(value) {
        assert(without_reserved(value) =~= value);
        text::lemma_trimmed_is_itself(value);
    }
    if trimmed(value).len() == 0 {
        text::lemma_trimmed_to_nothing(value);
        assert(without_reserved(value) =~= value);
    }
    let clean = without_reserved(value);
    assert forall|i: int| 0 <= i < clean.len() implies !is_reserved(#[trigger] clean[i]) by {}
    lemma_trim_keeps(clean, |c: char| is_reserved(c));
    let base = sanitized(value);
    assert(base.len() > 0);
    assert forall|i: int| 0 <= i < base.len() implies !is_reserved(#[trigger] base[i]) by {
        if trimmed(clean).len() > 0 {
            assert(!(|c: char| is_reserved(c))(trimmed(clean)[i]));
        }
    }
    assert(without_reserved(base) =~= base);
    text::lemma_trimmed_is_itself(base);
}

/// Renaming gives a profile its new name and keeps what stood behind the old one, as long as the
/// name holds no underscore.
pub proof fn law_renaming_keeps_the_rest(old: Seq<char>, new_base: Seq<char>)
    requires
        !sanitized(new_base).contains('_'),
    ensures
        base_of(file_named(new_base, suffix_of(old))) == sanitized(new_base),
        suffix_of(file_named(new_base, suffix_of(old))) == suffix_of(old),
{
    let base = sanitized(new_base);
    let filename = file_named(new_base, suffix_of(old));
    assert(filename[base.len() as int] == '_');
    assert forall|i: int| 0 <= i < base.len() implies filename[i] != '_' by {
        assert(filename[i] == base[i]);
    }
    text::lemma_first_index_unique(filename, '_', base.len() as int);
    text::lemma_first_index(filename, '_');
    assert(filename.take(base.len() as int) =~= base);
    assert(filename.skip(base.len() as int + 1) =~= suffix_of(old));
}

/// A saved calibration is listed under the name it was saved with, as long as the name holds no
/// underscore.
pub proof fn law_saved_profile_keeps_its_name(basename: Seq<char>, counts: Seq<i32>)
    requires
        !sanitized(basename).contains('_'),
    ensures
        base_of(file_named(basename, frame_counts_text(counts) + ".json"@)) == sanitized(basename),
{
    let base = sanitized(basename);
    let filename = file_named(basename, frame_counts_text(counts) + ".json"@);
    assert(filename[base.len() as int] == '_');
    assert forall|i: int| 0 <= i < base.len() implies filename[i] != '_' by {
        assert(filename[i] == base[i]);
    }
    text::lemma_first_index_unique(filename, '_', base.len() as int);
    text::lemma_first_index(filename, '_');
    assert(filename.take(base.len() as int) =~= base);
}

/// A profile is listed with its own file and name, with the lengths of its cycles, and as the one in
/// use exactly where it is.
pub proof fn law_profiles_are_described_as_they_are(file: ProfileFile, active: Option<Seq<char>>)
    requires
        file.frame_counts is Some,
    ensures
        described(file, active).filename == file.filename@,
        described(file, active).basename == base_of(file.filename@),
        described(file, active).is_active <==> active == Some(file.filename@),
        described(file, active).total_frames.len() > 0,
        described(file, active).total_frames.last() == 'f',
        described(file, active).total_frames.drop_last() == dashed(file.frame_counts->0@),
        described(file, None).is_active == false,
{
    let shown = described(file, active).total_frames;
    assert(shown.drop_last() =~= dashed(file.frame_counts->0@));
}

/// The lengths of cycles are written one behind the other, with a dash between them.
pub proof fn law_cycle_lengths_are_dashed(counts: Seq<i32>, count: i32)
    ensures
        dashed(seq![count]) == decimal_int(count as int),
        counts.len() > 0 ==> dashed(counts.push(count)) == dashed(counts) + seq!['-'] + decimal_int(
            count as int,
        ),
        frame_counts_text(Seq::empty()) == "0f"@,
        frame_counts_text(counts.push(count)) == dashed(counts.push(count)) + seq!['f'],
{
    assert(counts.push(count).drop_last() =~= counts);
}

/// A calibration that is saved is found again: its file is one that the menu lists.
pub proof fn law_saved_profiles_are_listed(basename: Seq<char>, counts: Seq<i32>, file: ProfileFile)
    requires
        file.filename@ == file_named(basename, frame_counts_text(counts) + ".json"@),
        file.frame_counts is Some,
    ensures
        is_listed(file),
{
    law_sanitized_base(basename);
    let head = sanitized(basename) + seq!['_'] + frame_counts_text(counts);
    let name = file.filename@;
    reveal_strlit(".json");
    reveal_strlit("json");
    assert(name =~= head.push('.') + "json"@);
    text::lemma_split_last(head, '.', "json"@);
    text::lemma_split_len(head, '.');
    let parts = text::split_on(name, '.');
    assert(parts.last() == "json"@);
    if parts.len() == 2 {
        text::law_split_parts_join(head, '.');
        assert(text::split_on(head, '.').len() == 1);
        assert(parts[0] == text::split_on(head, '.')[0]);
        assert(parts[0] == head);
    }
    assert(name.len() > 2);
}

/// A profile that is renamed to the name it has keeps its file, where the name is one that a file
/// can have and the file name shows it.
pub proof fn law_renaming_to_the_same_name_keeps_the_file(filename: Seq<char>)
    requires
        filename.contains('_'),
        is_clean(base_of(filename)),
    ensures
        file_named(base_of(filename), suffix_of(filename)) == filename,
{
    law_sanitized_base(base_of(filename));
    text::lemma_first_index(filename, '_');
    let n = text::first_index(filename, '_');
    assert(n < filename.len() && filename[n] == '_');
    assert(file_named(base_of(filename), suffix_of(filename)) =~= filename);
}

} // verus!
