//! File system paths as text, by the rules of Windows: `/` and `\` both separate, and a drive, a
//! share or a device may stand in front. Behind `\\?\` a path is taken as it is written: there only
//! `\` separates.
use crate::text;
use crate::text::{split_on, views};
use vstd::prelude::*;

verus! {

pub open spec fn is_separator(c: char) -> bool {
    c == '/' || c == '\\'
}

fn separator(c: char) -> (b: bool)
    ensures
        b == is_separator(c),
{
    c == '/' || c == '\\'
}

pub open spec fn is_letter(c: char) -> bool {
    'a' <= c <= 'z' || 'A' <= c <= 'Z'
}

fn letter(c: char) -> (b: bool)
    ensures
        b == is_letter(c),
{
    ('a' <= c && c <= 'z') || ('A' <= c && c <= 'Z')
}

/// The path starts with a drive letter and a colon.
pub open spec fn has_drive(path: Seq<char>) -> bool {
    path.len() >= 2 && is_letter(path[0]) && path[1] == ':'
}

/// The path starts with a separator.
pub open spec fn starts_at_root(path: Seq<char>) -> bool {
    path.len() >= 1 && is_separator(path[0])
}

/// What may stand in front of a path.
#[derive(Clone, Copy, Debug, PartialEq, Eq, Structural)]
pub enum Prefix {
    Absent,
    /// A drive letter: `C:`.
    Drive,
    /// A share or a device: `\\server\share`, `\\.\device`.
    Share,
    /// `\\?\` with a drive.
    VerbatimDrive,
    /// `\\?\UNC\` with a share.
    VerbatimShare,
    /// `\\?\` with anything else.
    Verbatim,
}

/// The character separates, in a path that is taken as it is written or in another.
pub open spec fn separates(c: char, verbatim: bool) -> bool {
    c == '\\' || (c == '/' && !verbatim)
}

/// Where the part of a path that starts at `from` ends: at the next separator, or at the end.
pub open spec fn part_end(path: Seq<char>, from: int, verbatim: bool) -> int
    decreases path.len() - from,
{
    if from < 0 || from >= path.len() || separates(path[from], verbatim) {
        from
    } else {
        part_end(path, from + 1, verbatim)
    }
}

/// Where the two parts end that start at `from`, as far as they are there: a server and its share.
pub open spec fn share_end(path: Seq<char>, from: int, verbatim: bool) -> int {
    let server = part_end(path, from, verbatim);
    if server < path.len() && part_end(path, server + 1, verbatim) > server + 1 {
        part_end(path, server + 1, verbatim)
    } else {
        server
    }
}

/// What stands in front of a path, and how long it is.
pub open spec fn prefix_of(path: Seq<char>) -> (Prefix, int) {
    if path.len() >= 2 && is_separator(path[0]) && is_separator(path[1]) {
        if path.len() >= 4 && path.take(4) == seq!['\\', '\\', '?', '\\'] {
            if path.len() >= 8 && path.subrange(4, 7) == seq!['U', 'N', 'C'] && is_separator(
                path[7],
            ) {
                (Prefix::VerbatimShare, share_end(path, 8, true))
            } else if has_drive(path.skip(4)) && (path.len() == 6 || is_separator(path[6])) {
                (Prefix::VerbatimDrive, 6)
            } else {
                (Prefix::Verbatim, part_end(path, 4, true))
            }
        } else if path.len() >= 4 && path[2] == '.' && is_separator(path[3]) {
            (Prefix::Share, part_end(path, 4, false))
        } else {
            let server = part_end(path, 2, false);
            if server > 2 && share_end(path, 2, false) > server {
                (Prefix::Share, share_end(path, 2, false))
            } else {
                (Prefix::Absent, 0)
            }
        }
    } else if has_drive(path) {
        (Prefix::Drive, 2)
    } else {
        (Prefix::Absent, 0)
    }
}

/// The path is taken as it is written.
pub open spec fn is_verbatim(prefix: Prefix) -> bool {
    prefix == Prefix::VerbatimDrive || prefix == Prefix::VerbatimShare || prefix == Prefix::Verbatim
}

/// A separator stands behind the prefix of the path.
pub open spec fn has_root(path: Seq<char>) -> bool {
    starts_at_root(path.skip(prefix_of(path).1))
}

/// The path starts with a single dot for the directory it is seen from.
pub open spec fn starts_here(path: Seq<char>) -> bool {
    let (prefix, len) = prefix_of(path);
    let rest = path.skip(len);
    &&& prefix == Prefix::Absent || prefix == Prefix::Drive
    &&& rest.len() >= 1 && rest[0] == '.'
    &&& rest.len() == 1 || is_separator(rest[1])
}

/// Where the components of a path begin: behind its prefix, and behind its root or the single dot
/// it starts with.
pub open spec fn body_start(path: Seq<char>) -> int {
    prefix_of(path).1 + if has_root(path) || starts_here(path) {
        1int
    } else {
        0int
    }
}

/// The parts of a path that name something: not empty, and, but for a path that is taken as it is
/// written, no single dot.
pub open spec fn named_parts(parts: Seq<Seq<char>>, verbatim: bool) -> Seq<Seq<char>>
    decreases parts.len(),
{
    if parts.len() == 0 {
        Seq::empty()
    } else {
        let rest = named_parts(parts.drop_last(), verbatim);
        if is_void(parts.last(), verbatim) {
            rest
        } else {
            rest.push(parts.last())
        }
    }
}

/// The part names nothing.
pub open spec fn is_void(part: Seq<char>, verbatim: bool) -> bool {
    part.len() == 0 || (part == seq!['.'] && !verbatim)
}

/// The components of a path behind its prefix and its root.
pub open spec fn body_parts(path: Seq<char>) -> Seq<Seq<char>> {
    let (prefix, len) = prefix_of(path);
    if is_verbatim(prefix) {
        named_parts(split_on(path.skip(len), '\\'), true)
    } else {
        let named = named_parts(split_on(with_slashes(path.skip(len)), '/'), false);
        if starts_here(path) {
            seq![seq!['.']] + named
        } else {
            named
        }
    }
}

/// `kept`, seen from which the parts lead on: a single dot leads nowhere, two dots lead back.
pub open spec fn led_on(kept: Seq<Seq<char>>, parts: Seq<Seq<char>>) -> Seq<Seq<char>>
    decreases parts.len(),
{
    if parts.len() == 0 {
        kept
    } else {
        let before = led_on(kept, parts.drop_last());
        let part = parts.last();
        if part == seq!['.'] {
            before
        } else if part == seq!['.', '.'] {
            if before.len() > 0 && before.last() != seq!['.'] && before.last() != seq!['.', '.'] {
                before.drop_last()
            } else {
                before
            }
        } else {
            before.push(part)
        }
    }
}

/// The parts, each behind a `\`.
pub open spec fn behind_separators(parts: Seq<Seq<char>>) -> Seq<char>
    decreases parts.len(),
{
    if parts.len() == 0 {
        Seq::empty()
    } else {
        behind_separators(parts.drop_last()) + seq!['\\'] + parts.last()
    }
}

/// `part` put behind a path that is taken as it is written: dots are followed, and `\` separates.
pub open spec fn joined_verbatim(base: Seq<char>, part: Seq<char>) -> Seq<char> {
    let prefix = base.take(prefix_of(base).1);
    let kept = if starts_at_root(part) {
        Seq::empty()
    } else {
        body_parts(base)
    };
    let parts = led_on(kept, body_parts(part));
    if parts.len() == 0 && (has_root(base) || starts_at_root(part)) {
        prefix + seq!['\\']
    } else {
        prefix + behind_separators(parts)
    }
}

/// `part` seen from `base`: a part with a prefix stands for itself, one that starts with a
/// separator keeps the prefix of `base`, any other is put behind `base`.
pub open spec fn joined(base: Seq<char>, part: Seq<char>) -> Seq<char> {
    let (prefix, len) = prefix_of(base);
    if prefix_of(part).0 != Prefix::Absent {
        part
    } else if is_verbatim(prefix) && part.len() > 0 {
        joined_verbatim(base, part)
    } else if starts_at_root(part) {
        base.take(len) + part
    } else if base.len() == 0 || is_separator(base.last()) || (prefix == Prefix::Drive && base.len()
        == 2) {
        base + part
    } else {
        base + seq!['\\'] + part
    }
}

fn find_part_end(chars: &Vec<char>, from: usize, verbatim: bool) -> (end: usize)
    requires
        from <= chars@.len(),
    ensures
        from <= end <= chars@.len(),
        end == part_end(chars@, from as int, verbatim),
{
    let mut end: usize = from;
    while end < chars.len() && !(chars[end] == '\\' || (chars[end] == '/' && !verbatim))
        invariant
            from <= end <= chars@.len(),
            part_end(chars@, from as int, verbatim) == part_end(chars@, end as int, verbatim),
        decreases chars@.len() - end,
    {
        end += 1;
    }
    end
}

fn find_share_end(chars: &Vec<char>, from: usize, verbatim: bool) -> (end: usize)
    requires
        from <= chars@.len(),
    ensures
        from <= end <= chars@.len(),
        end == share_end(chars@, from as int, verbatim),
{
    let server: usize = find_part_end(chars, from, verbatim);
    if server < chars.len() {
        let end: usize = find_part_end(chars, server + 1, verbatim);
        if end > server + 1 {
            return end;
        }
    }
    server
}

fn prefix(chars: &Vec<char>) -> (r: (Prefix, usize))
    ensures
        r.0 == prefix_of(chars@).0,
        r.1 == prefix_of(chars@).1,
        r.1 <= chars@.len(),
{
    let n: usize = chars.len();
    if n >= 2 && separator(chars[0]) && separator(chars[1]) {
        if n >= 4 && chars[0] == '\\' && chars[1] == '\\' && chars[2] == '?' && chars[3] == '\\' {
            assert(chars@.take(4) =~= seq!['\\', '\\', '?', '\\']);
            if n >= 8 && chars[4] == 'U' && chars[5] == 'N' && chars[6] == 'C' && separator(
                chars[7],
            ) {
                assert(chars@.subrange(4, 7) =~= seq!['U', 'N', 'C']);
                return (Prefix::VerbatimShare, find_share_end(chars, 8, true));
            }
            proof {
                if n >= 8 && chars@.subrange(4, 7) == seq!['U', 'N', 'C'] {
                    assert(chars@[4] == chars@.subrange(4, 7)[0]);
                    assert(chars@[5] == chars@.subrange(4, 7)[1]);
                    assert(chars@[6] == chars@.subrange(4, 7)[2]);
                }
            }
            if n >= 6 && letter(chars[4]) && chars[5] == ':' && (n == 6 || separator(chars[6])) {
                return (Prefix::VerbatimDrive, 6);
            }
            return (Prefix::Verbatim, find_part_end(chars, 4, true));
        }
        proof {
            if n >= 4 && chars@.take(4) == seq!['\\', '\\', '?', '\\'] {
                assert(chars@[0] == chars@.take(4)[0]);
                assert(chars@[1] == chars@.take(4)[1]);
                assert(chars@[2] == chars@.take(4)[2]);
                assert(chars@[3] == chars@.take(4)[3]);
            }
        }
        if n >= 4 && chars[2] == '.' && separator(chars[3]) {
            return (Prefix::Share, find_part_end(chars, 4, false));
        }
        let server: usize = find_part_end(chars, 2, false);
        let end: usize = find_share_end(chars, 2, false);
        if server > 2 && end > server {
            (Prefix::Share, end)
        } else {
            (Prefix::Absent, 0)
        }
    } else if n >= 2 && letter(chars[0]) && chars[1] == ':' {
        (Prefix::Drive, 2)
    } else {
        (Prefix::Absent, 0)
    }
}

fn verbatim(prefix: Prefix) -> (b: bool)
    ensures
        b == is_verbatim(prefix),
{
    matches!(prefix, Prefix::VerbatimDrive | Prefix::VerbatimShare | Prefix::Verbatim)
}

/// Whether a separator stands behind the prefix, and whether a single dot does.
fn start(chars: &Vec<char>, prefix: Prefix, len: usize) -> (r: (bool, bool))
    requires
        prefix == prefix_of(chars@).0,
        len == prefix_of(chars@).1,
        len <= chars@.len(),
    ensures
        r.0 == has_root(chars@),
        r.1 == starts_here(chars@),
        !(r.0 && r.1),
        r.0 || r.1 ==> len < chars@.len(),
{
    let n: usize = chars.len();
    let rooted = n > len && separator(chars[len]);
    let here = matches!(prefix, Prefix::Absent | Prefix::Drive) && n > len && chars[len] == '.' && (
    n == len + 1 || separator(chars[len + 1]));
    proof {
        let rest = chars@.skip(len as int);
        assert(rest.len() == n - len);
        if rest.len() >= 1 {
            assert(rest[0] == chars@[len as int]);
        }
        if rest.len() >= 2 {
            assert(rest[1] == chars@[len as int + 1]);
        }
    }
    (rooted, here)
}

/// Keeps the parts that name something.
fn keep_named(split: &Vec<String>, verbatim: bool) -> (parts: Vec<String>)
    ensures
        views(parts@) == named_parts(views(split@), verbatim),
{
    let mut parts: Vec<String> = Vec::new();
    let mut i: usize = 0;
    let ghost all = views(split@);
    assert(views(parts@) =~= named_parts(all.take(0), verbatim));
    while i < split.len()
        invariant
            i <= split@.len(),
            all == views(split@),
            views(parts@) == named_parts(all.take(i as int), verbatim),
        decreases split@.len() - i,
    {
        let part = split[i].clone();
        let ghost before = views(parts@);
        proof {
            assert(all.take(i as int + 1).drop_last() =~= all.take(i as int));
            assert(all.take(i as int + 1).last() == part@);
            reveal_strlit("");
            reveal_strlit(".");
            assert(""@ =~= Seq::<char>::empty());
            assert("."@ =~= seq!['.']);
        }
        if !text::same(&part, "") && (verbatim || !text::same(&part, ".")) {
            let ghost added = part@;
            parts.push(part);
            assert(views(parts@) =~= before.push(added));
            assert(!is_void(added, verbatim)) by {
                assert(added != ""@);
                if added.len() == 0 {
                    assert(added =~= ""@);
                }
            }
        } else {
            assert(part@.len() == 0 || part@ == seq!['.']);
            assert(is_void(part@, verbatim));
        }
        i += 1;
    }
    assert(all.take(i as int) =~= all);
    parts
}

/// The components of a path behind its prefix and its root.
fn parts(chars: &Vec<char>) -> (parts: Vec<String>)
    ensures
        views(parts@) == body_parts(chars@),
{
    let (prefix, len) = prefix(chars);
    let (_, here) = start(chars, prefix, len);
    let rest = text::from_char_range(chars, len, chars.len());
    assert(rest@ =~= chars@.skip(len as int));
    if verbatim(prefix) {
        return keep_named(&text::split(&rest, '\\'), true);
    }
    let named = keep_named(&text::split(&to_slashes(&rest), '/'), false);
    if !here {
        return named;
    }
    let mut all: Vec<String> = Vec::new();
    all.push(".".to_owned());
    let ghost first = views(all@);
    proof {
        reveal_strlit(".");
        assert("."@ =~= seq!['.']);
        assert(first =~= seq![seq!['.']]);
    }
    let mut i: usize = 0;
    assert(views(all@) =~= first + views(named@).take(0));
    while i < named.len()
        invariant
            i <= named@.len(),
            views(all@) == first + views(named@).take(i as int),
        decreases named@.len() - i,
    {
        let ghost before = views(all@);
        all.push(named[i].clone());
        proof {
            assert(views(all@) =~= before.push(views(named@)[i as int]));
            assert(views(all@) =~= first + views(named@).take(i as int + 1));
        }
        i += 1;
    }
    assert(views(named@).take(i as int) =~= views(named@));
    all
}

/// Follows the parts on from `kept`.
fn lead_on(kept: Vec<String>, parts: &Vec<String>) -> (r: Vec<String>)
    ensures
        views(r@) == led_on(views(kept@), views(parts@)),
{
    let ghost from = views(kept@);
    let ghost all = views(parts@);
    let mut r: Vec<String> = kept;
    let mut i: usize = 0;
    assert(all.take(0) =~= Seq::<Seq<char>>::empty());
    proof {
        reveal_strlit(".");
        reveal_strlit("..");
        assert("."@ =~= seq!['.']);
        assert(".."@ =~= seq!['.', '.']);
    }
    while i < parts.len()
        invariant
            i <= parts@.len(),
            all == views(parts@),
            views(r@) == led_on(from, all.take(i as int)),
            "."@ == seq!['.'],
            ".."@ == seq!['.', '.'],
        decreases parts@.len() - i,
    {
        let part = parts[i].clone();
        let ghost before = views(r@);
        proof {
            assert(all.take(i as int + 1).drop_last() =~= all.take(i as int));
            assert(all.take(i as int + 1).last() == part@);
        }
        if text::same(&part, ".") {
        } else if text::same(&part, "..") {
            if r.len() > 0 {
                let n: usize = r.len();
                assert(before.last() == r@[n - 1]@);
                if !text::same(&r[n - 1], ".") && !text::same(&r[n - 1], "..") {
                    r.pop();
                    assert(views(r@) =~= before.drop_last());
                }
            }
        } else {
            let ghost added = part@;
            r.push(part);
            assert(views(r@) =~= before.push(added));
        }
        i += 1;
    }
    assert(all.take(i as int) =~= all);
    r
}

fn join_verbatim(base: &Vec<char>, part: &Vec<char>) -> (path: String)
    ensures
        path@ == joined_verbatim(base@, part@),
{
    let (kind, len) = prefix(base);
    let (rooted, _) = start(base, kind, len);
    let from_root = part.len() > 0 && separator(part[0]);
    let kept: Vec<String> = if from_root {
        Vec::new()
    } else {
        parts(base)
    };
    assert(from_root ==> views(kept@) =~= Seq::<Seq<char>>::empty());
    let all = lead_on(kept, &parts(part));
    let mut path = text::from_char_range(base, 0, len);
    assert(path@ =~= base@.take(len as int));
    if all.len() == 0 && (rooted || from_root) {
        path.push('\\');
        assert(path@ =~= base@.take(len as int) + seq!['\\']);
        return path;
    }
    let ghost front = path@;
    let ghost named = views(all@);
    let mut i: usize = 0;
    assert(named.take(0) =~= Seq::<Seq<char>>::empty());
    assert(path@ =~= front + behind_separators(named.take(0)));
    while i < all.len()
        invariant
            i <= all@.len(),
            named == views(all@),
            path@ == front + behind_separators(named.take(i as int)),
        decreases all@.len() - i,
    {
        path.push('\\');
        path.append(&all[i]);
        proof {
            assert(named.take(i as int + 1).drop_last() =~= named.take(i as int));
            assert(named.take(i as int + 1).last() == all@[i as int]@);
            assert(path@ =~= front + behind_separators(named.take(i as int + 1)));
        }
        i += 1;
    }
    assert(named.take(i as int) =~= named);
    path
}

pub fn join(base: &str, part: &str) -> (path: String)
    ensures
        path@ == joined(base@, part@),
{
    let b = text::to_chars(base);
    let p = text::to_chars(part);
    let (front, _) = prefix(&p);
    if !matches!(front, Prefix::Absent) {
        return part.to_owned();
    }
    let (kind, len) = prefix(&b);
    if verbatim(kind) && p.len() > 0 {
        return join_verbatim(&b, &p);
    }
    if p.len() >= 1 && separator(p[0]) {
        let mut path = text::from_char_range(&b, 0, len);
        path.append(part);
        assert(path@ =~= base@.take(len as int) + part@);
        return path;
    }
    let mut path = base.to_owned();
    if !(b.len() == 0 || separator(b[b.len() - 1]) || (matches!(kind, Prefix::Drive) && b.len()
        == 2)) {
        path.push('\\');
        path.append(part);
        assert(path@ =~= base@ + seq!['\\'] + part@);
        return path;
    }
    path.append(part);
    path
}

/// The place that `parts` lead to from `base`.
pub open spec fn joined_all(base: Seq<char>, parts: Seq<Seq<char>>) -> Seq<char>
    decreases parts.len(),
{
    if parts.len() == 0 {
        base
    } else {
        joined(joined_all(base, parts.drop_last()), parts.last())
    }
}

pub fn join_all(base: String, parts: Vec<&str>) -> (path: String)
    ensures
        path@ == joined_all(base@, parts@.map_values(|s: &str| s@)),
{
    let ghost start = base@;
    let ghost all = parts@.map_values(|s: &str| s@);
    let mut path = base;
    let mut i: usize = 0;
    assert(all.take(0) =~= Seq::<Seq<char>>::empty());
    while i < parts.len()
        invariant
            i <= parts@.len(),
            all == parts@.map_values(|s: &str| s@),
            path@ == joined_all(start, all.take(i as int)),
        decreases parts@.len() - i,
    {
        assert(all.take(i as int + 1).drop_last() =~= all.take(i as int));
        path = join(&path, parts[i]);
        i += 1;
    }
    assert(all.take(i as int) =~= all);
    path
}

/// The start of the component that ends at `end`.
pub open spec fn component_start(path: Seq<char>, body: int, end: int, verbatim: bool) -> int
    decreases end,
{
    if end > body && end >= 1 && !separates(path[end - 1], verbatim) {
        component_start(path, body, end - 1, verbatim)
    } else {
        end
    }
}

/// The end of what is left without the component from `start` on, and without the separator in
/// front of it.
pub open spec fn cut_at(body: int, start: int) -> int {
    if start > body {
        start - 1
    } else {
        body
    }
}

/// The end of `path[..end]` without what it ends in that names nothing.
pub open spec fn named_end(path: Seq<char>, body: int, end: int, verbatim: bool) -> int
    decreases end,
{
    let start = component_start(path, body, end, verbatim);
    if 0 <= body < end && body <= start <= end && is_void(path.subrange(start, end), verbatim) {
        named_end(path, body, cut_at(body, start), verbatim)
    } else {
        end
    }
}

/// The path without its last component; nothing where there is no component.
pub open spec fn parent_of(path: Seq<char>) -> Option<Seq<char>> {
    let (prefix, len) = prefix_of(path);
    let verbatim = is_verbatim(prefix);
    let body = body_start(path);
    let end = named_end(path, body, path.len() as int, verbatim);
    if end > body {
        let cut = cut_at(body, component_start(path, body, end, verbatim));
        Some(path.take(named_end(path, body, cut, verbatim)))
    } else if starts_here(path) {
        Some(path.take(len))
    } else {
        None
    }
}

/// The last component of the path, where it is a name.
pub open spec fn name_of(path: Seq<char>) -> Option<Seq<char>> {
    let verbatim = is_verbatim(prefix_of(path).0);
    let body = body_start(path);
    let end = named_end(path, body, path.len() as int, verbatim);
    let name = path.subrange(component_start(path, body, end, verbatim), end);
    if end > body && name != seq!['.'] && name != seq!['.', '.'] {
        Some(name)
    } else {
        None
    }
}

proof fn lemma_part_end(path: Seq<char>, from: int, verbatim: bool)
    requires
        0 <= from <= path.len(),
    ensures
        from <= part_end(path, from, verbatim) <= path.len(),
    decreases path.len() - from,
{
    if from < path.len() && !separates(path[from], verbatim) {
        lemma_part_end(path, from + 1, verbatim);
    }
}

proof fn lemma_share_end(path: Seq<char>, from: int, verbatim: bool)
    requires
        0 <= from <= path.len(),
    ensures
        from <= share_end(path, from, verbatim) <= path.len(),
{
    lemma_part_end(path, from, verbatim);
    let server = part_end(path, from, verbatim);
    if server < path.len() {
        lemma_part_end(path, server + 1, verbatim);
    }
}

proof fn lemma_body_start(path: Seq<char>)
    ensures
        0 <= prefix_of(path).1 <= body_start(path) <= path.len(),
        starts_here(path) ==> prefix_of(path).1 < path.len(),
{
    if path.len() >= 2 {
        lemma_share_end(path, 2, false);
        lemma_part_end(path, 2, false);
    }
    if path.len() >= 4 {
        lemma_part_end(path, 4, true);
        lemma_part_end(path, 4, false);
    }
    if path.len() >= 8 {
        lemma_share_end(path, 8, true);
    }
}

proof fn lemma_component_start(path: Seq<char>, body: int, end: int, verbatim: bool)
    requires
        0 <= body <= end <= path.len(),
    ensures
        body <= component_start(path, body, end, verbatim) <= end,
    decreases end,
{
    if end > body && !separates(path[end - 1], verbatim) {
        lemma_component_start(path, body, end - 1, verbatim);
    }
}

proof fn lemma_named_end(path: Seq<char>, body: int, end: int, verbatim: bool)
    requires
        0 <= body <= end <= path.len(),
    ensures
        body <= named_end(path, body, end, verbatim) <= end,
        named_end(path, body, end, verbatim) > body ==> component_start(
            path,
            body,
            named_end(path, body, end, verbatim),
            verbatim,
        ) < named_end(path, body, end, verbatim),
    decreases end,
{
    lemma_component_start(path, body, end, verbatim);
    let start = component_start(path, body, end, verbatim);
    if body < end && is_void(path.subrange(start, end), verbatim) {
        lemma_named_end(path, body, cut_at(body, start), verbatim);
    }
}

/// The path of a parent is shorter.
pub proof fn lemma_parent_is_shorter(path: Seq<char>)
    ensures
        parent_of(path) matches Some(parent) ==> parent.len() < path.len(),
{
    let verbatim = is_verbatim(prefix_of(path).0);
    let body = body_start(path);
    lemma_body_start(path);
    lemma_named_end(path, body, path.len() as int, verbatim);
    let end = named_end(path, body, path.len() as int, verbatim);
    if end > body {
        lemma_component_start(path, body, end, verbatim);
        let cut = cut_at(body, component_start(path, body, end, verbatim));
        lemma_named_end(path, body, cut, verbatim);
    }
}

fn skip_component_back(chars: &Vec<char>, body: usize, end: usize, verbatim: bool) -> (n: usize)
    requires
        body <= end <= chars@.len(),
    ensures
        body <= n <= end,
        n == component_start(chars@, body as int, end as int, verbatim),
{
    let mut n: usize = end;
    while n > body && !(chars[n - 1] == '\\' || (chars[n - 1] == '/' && !verbatim))
        invariant
            body <= n <= end <= chars@.len(),
            component_start(chars@, body as int, end as int, verbatim) == component_start(
                chars@,
                body as int,
                n as int,
                verbatim,
            ),
        decreases n,
    {
        n -= 1;
    }
    n
}

fn find_named_end(chars: &Vec<char>, body: usize, end: usize, verbatim: bool) -> (n: usize)
    requires
        body <= end <= chars@.len(),
    ensures
        body <= n <= end,
        n == named_end(chars@, body as int, end as int, verbatim),
    decreases end,
{
    let first: usize = skip_component_back(chars, body, end, verbatim);
    let void = first == end || (end - first == 1 && chars[first] == '.' && !verbatim);
    proof {
        let part = chars@.subrange(first as int, end as int);
        assert(part.len() == end - first);
        if part.len() == 1 {
            assert(part[0] == chars@[first as int]);
            assert(part == seq!['.'] <==> chars@[first as int] == '.') by {
                if chars@[first as int] == '.' {
                    assert(part =~= seq!['.']);
                }
            }
        }
        assert(void == is_void(part, verbatim));
    }
    if body < end && void {
        let cut: usize = if first > body {
            first - 1
        } else {
            body
        };
        find_named_end(chars, body, cut, verbatim)
    } else {
        end
    }
}

pub fn parent(path: &str) -> (parent: Option<String>)
    ensures
        text::opt_view(parent) == parent_of(path@),
{
    let chars = text::to_chars(path);
    let (kind, len) = prefix(&chars);
    let verbatim = verbatim(kind);
    let (rooted, here) = start(&chars, kind, len);
    let n: usize = chars.len();
    assert(rooted || here ==> len < n);
    let body: usize = if rooted || here {
        len + 1
    } else {
        len
    };
    let end: usize = find_named_end(&chars, body, n, verbatim);
    if end > body {
        let first: usize = skip_component_back(&chars, body, end, verbatim);
        let cut: usize = if first > body {
            first - 1
        } else {
            body
        };
        let kept: usize = find_named_end(&chars, body, cut, verbatim);
        let parent = text::from_char_range(&chars, 0, kept);
        assert(parent@ =~= path@.take(kept as int));
        return Some(parent);
    }
    if here {
        let parent = text::from_char_range(&chars, 0, len);
        assert(parent@ =~= path@.take(len as int));
        return Some(parent);
    }
    None
}

pub fn file_name(path: &str) -> (name: Option<String>)
    ensures
        text::opt_view(name) == name_of(path@),
{
    let chars = text::to_chars(path);
    let (kind, len) = prefix(&chars);
    let verbatim = verbatim(kind);
    let (rooted, here) = start(&chars, kind, len);
    let n: usize = chars.len();
    assert(rooted || here ==> len < n);
    let body: usize = if rooted || here {
        len + 1
    } else {
        len
    };
    let end: usize = find_named_end(&chars, body, n, verbatim);
    if end <= body {
        return None;
    }
    let first: usize = skip_component_back(&chars, body, end, verbatim);
    let name = text::from_char_range(&chars, first, end);
    proof {
        reveal_strlit(".");
        reveal_strlit("..");
        assert("."@ =~= seq!['.']);
        assert(".."@ =~= seq!['.', '.']);
    }
    if text::same(&name, ".") || text::same(&name, "..") {
        None
    } else {
        Some(name)
    }
}

/// Where the last dot in `name[..end]` stands, or -1 where there is none.
pub open spec fn last_dot(name: Seq<char>, end: int) -> int
    decreases end,
{
    if end <= 0 || end > name.len() {
        -1
    } else if name[end - 1] == '.' {
        end - 1
    } else {
        last_dot(name, end - 1)
    }
}

/// What stands behind the last dot in the name of a file. A dot in front of the name does not
/// count.
pub open spec fn extension_of(path: Seq<char>) -> Option<Seq<char>> {
    match name_of(path) {
        Some(name) => if last_dot(name, name.len() as int) > 0 {
            Some(name.skip(last_dot(name, name.len() as int) + 1))
        } else {
            None
        },
        None => None,
    }
}

pub fn extension(path: &str) -> (extension: Option<String>)
    ensures
        text::opt_view(extension) == extension_of(path@),
{
    let name = match file_name(path) {
        Some(name) => name,
        None => {
            return None;
        },
    };
    let chars = text::to_chars(&name);
    let mut i: usize = chars.len();
    while i > 0 && chars[i - 1] != '.'
        invariant
            i <= chars@.len(),
            last_dot(chars@, i as int) == last_dot(chars@, chars@.len() as int),
        decreases i,
    {
        i -= 1;
    }
    if i <= 1 {
        return None;
    }
    let extension = text::from_char_range(&chars, i, chars.len());
    assert(extension@ =~= name@.skip(i as int));
    Some(extension)
}

/// `path` with `/` for every separator.
pub open spec fn with_slashes(path: Seq<char>) -> Seq<char> {
    path.map_values(|c: char| if c == '\\' { '/' } else { c })
}

pub fn to_slashes(path: &str) -> (r: String)
    ensures
        r@ == with_slashes(path@),
{
    let chars = text::to_chars(path);
    let mut r = String::new();
    let mut i: usize = 0;
    while i < chars.len()
        invariant
            i <= chars@.len(),
            chars@ == path@,
            r@ == with_slashes(path@).take(i as int),
        decreases chars@.len() - i,
    {
        let c: char = chars[i];
        r.push(if c == '\\' { '/' } else { c });
        i += 1;
        assert(r@ =~= with_slashes(path@).take(i as int));
    }
    assert(r@ =~= with_slashes(path@));
    r
}

/// The prefix of a path, written so that equal prefixes are the same text: with `\` for `/` where
/// that separates, and a drive letter in lower case.
pub open spec fn prefix_text(path: Seq<char>) -> Seq<char> {
    let (prefix, len) = prefix_of(path);
    match prefix {
        Prefix::Absent => Seq::empty(),
        Prefix::Drive => seq![text::lower(path[0]), ':'],
        Prefix::Share => with_backslashes(path.take(len)),
        Prefix::VerbatimDrive => seq!['\\', '\\', '?', '\\', text::lower(path[4]), ':'],
        Prefix::VerbatimShare => with_backslashes(path.take(8)) + path.subrange(8, len),
        Prefix::Verbatim => path.take(len),
    }
}

/// `path` with `\` for every separator.
pub open spec fn with_backslashes(path: Seq<char>) -> Seq<char> {
    path.map_values(|c: char| if c == '/' { '\\' } else { c })
}

/// The components of a path: its prefix, its root as `\`, and what follows. Shares have a root in
/// any case.
pub open spec fn components_of(path: Seq<char>) -> Seq<Seq<char>> {
    let prefix = prefix_of(path).0;
    let front = if prefix == Prefix::Absent {
        Seq::empty()
    } else {
        seq![prefix_text(path)]
    };
    let root = if has_root(path) || prefix == Prefix::Share {
        seq![seq!['\\']]
    } else {
        Seq::empty()
    };
    front + root + body_parts(path)
}

/// `path` is `dir` or lies below it.
pub open spec fn lies_under(path: Seq<char>, dir: Seq<char>) -> bool {
    components_of(dir).is_prefix_of(components_of(path))
}

/// Adds a range of characters, with `\` for `/`.
fn push_backslashed(s: &mut String, chars: &Vec<char>, to: usize)
    requires
        to <= chars@.len(),
    ensures
        final(s)@ == old(s)@ + with_backslashes(chars@.take(to as int)),
{
    let ghost before = s@;
    let ghost want = with_backslashes(chars@.take(to as int));
    let mut i: usize = 0;
    assert(s@ =~= before + want.take(0));
    while i < to
        invariant
            i <= to <= chars@.len(),
            want == with_backslashes(chars@.take(to as int)),
            s@ == before + want.take(i as int),
        decreases to - i,
    {
        let c: char = chars[i];
        s.push(if c == '/' { '\\' } else { c });
        i += 1;
        assert(s@ =~= before + want.take(i as int));
    }
    assert(want.take(i as int) =~= want);
}

fn write_prefix(chars: &Vec<char>, kind: Prefix, len: usize) -> (s: String)
    requires
        kind == prefix_of(chars@).0,
        len == prefix_of(chars@).1,
        len <= chars@.len(),
    ensures
        s@ == prefix_text(chars@),
{
    let mut s = String::new();
    match kind {
        Prefix::Absent => {},
        Prefix::Drive => {
            s.push(text::ascii_lower(chars[0]));
            s.push(':');
        },
        Prefix::Share => {
            push_backslashed(&mut s, chars, len);
        },
        Prefix::VerbatimDrive => {
            s.push('\\');
            s.push('\\');
            s.push('?');
            s.push('\\');
            s.push(text::ascii_lower(chars[4]));
            s.push(':');
        },
        Prefix::VerbatimShare => {
            proof {
                lemma_share_end(chars@, 8, true);
            }
            push_backslashed(&mut s, chars, 8);
            s.append(&text::from_char_range(chars, 8, len));
        },
        Prefix::Verbatim => {
            s.append(&text::from_char_range(chars, 0, len));
            assert(chars@.subrange(0, len as int) =~= chars@.take(len as int));
        },
    }
    assert(s@ =~= prefix_text(chars@));
    s
}

fn components(chars: &Vec<char>) -> (all: Vec<String>)
    ensures
        views(all@) == components_of(chars@),
{
    let (kind, len) = prefix(chars);
    let (rooted, _) = start(chars, kind, len);
    let mut all: Vec<String> = Vec::new();
    if !matches!(kind, Prefix::Absent) {
        all.push(write_prefix(chars, kind, len));
        assert(views(all@) =~= seq![prefix_text(chars@)]);
    } else {
        assert(views(all@) =~= Seq::empty());
    }
    let ghost front = views(all@);
    if rooted || matches!(kind, Prefix::Share) {
        proof {
            reveal_strlit("\\");
            assert("\\"@ =~= seq!['\\']);
        }
        all.push("\\".to_owned());
        assert(views(all@) =~= front + seq![seq!['\\']]);
    } else {
        assert(front =~= front + Seq::<Seq<char>>::empty());
    }
    let ghost anchor = views(all@);
    let named = parts(chars);
    let mut i: usize = 0;
    assert(views(all@) =~= anchor + views(named@).take(0));
    while i < named.len()
        invariant
            i <= named@.len(),
            views(all@) == anchor + views(named@).take(i as int),
        decreases named@.len() - i,
    {
        let ghost before = views(all@);
        all.push(named[i].clone());
        proof {
            assert(views(all@) =~= before.push(views(named@)[i as int]));
            assert(views(all@) =~= anchor + views(named@).take(i as int + 1));
        }
        i += 1;
    }
    assert(views(named@).take(i as int) =~= views(named@));
    all
}

/// Whether `path` is `dir` or lies below it.
pub fn is_under(path: &str, dir: &str) -> (b: bool)
    ensures
        b == lies_under(path@, dir@),
{
    let inner = components(&text::to_chars(path));
    let outer = components(&text::to_chars(dir));
    let ghost a = components_of(path@);
    let ghost b = components_of(dir@);
    assert(a.len() == inner@.len() && b.len() == outer@.len());
    if outer.len() > inner.len() {
        return false;
    }
    let mut i: usize = 0;
    while i < outer.len()
        invariant
            i <= outer@.len() <= inner@.len(),
            a == views(inner@),
            b == views(outer@),
            a == components_of(path@),
            b == components_of(dir@),
            forall|k: int| 0 <= k < i ==> a[k] == b[k],
        decreases outer@.len() - i,
    {
        assert(a[i as int] == inner@[i as int]@ && b[i as int] == outer@[i as int]@);
        if !text::same(&inner[i], &outer[i]) {
            assert(!b.is_prefix_of(a)) by {
                if b.is_prefix_of(a) {
                    assert(a.subrange(0, b.len() as int)[i as int] == b[i as int]);
                }
            }
            return false;
        }
        i += 1;
    }
    assert(b.is_prefix_of(a)) by {
        assert(a.subrange(0, b.len() as int) =~= b);
    }
    true
}

/// Everything lies under itself.
pub proof fn law_path_lies_under_itself(path: Seq<char>)
    ensures
        lies_under(path, path),
{
    assert(components_of(path).subrange(0, components_of(path).len() as int) =~= components_of(
        path,
    ));
}

/// The text can be the name of a file or a directory: it holds no separator, starts with no drive,
/// and is no dots alone.
pub open spec fn is_plain_name(name: Seq<char>) -> bool {
    &&& name.len() > 0
    &&& forall|i: int| 0 <= i < name.len() ==> !is_separator(#[trigger] name[i])
    &&& !has_drive(name)
    &&& name != seq!['.'] && name != seq!['.', '.']
}

/// The directory starts with a drive and its root.
pub open spec fn is_on_drive(dir: Seq<char>) -> bool {
    has_drive(dir) && dir.len() >= 3 && is_separator(dir[2])
}

/// A longer text without separators and colons is a plain name.
pub proof fn lemma_plain_name(name: Seq<char>)
    requires
        name.len() >= 3,
        name[1] != ':',
        forall|i: int| 0 <= i < name.len() ==> !is_separator(#[trigger] name[i]),
    ensures
        is_plain_name(name),
{
    assert(seq!['.'].len() == 1);
    assert(seq!['.', '.'].len() == 2);
}

proof fn lemma_joined_name(base: Seq<char>, name: Seq<char>)
    requires
        is_plain_name(name),
        !is_verbatim(prefix_of(base).0),
    ensures
        joined(base, name) == base + name || joined(base, name) == base + seq!['\\'] + name,
        joined(base, name) == base + name ==> base.len() == 0 || is_separator(base.last()) || (
        prefix_of(base).0 == Prefix::Drive && base.len() == 2),
{
    assert(!is_separator(name[0]));
    assert(prefix_of(name).0 == Prefix::Absent);
    assert(!starts_at_root(name));
    assert((base + name).len() != (base + seq!['\\'] + name).len());
}

/// A name is put behind the directory, with at most a separator between them.
pub proof fn law_names_are_put_behind(base: Seq<char>, name: Seq<char>)
    requires
        is_plain_name(name),
        !is_verbatim(prefix_of(base).0),
    ensures
        text::starts_with(joined(base, name), base),
        text::ends_with(joined(base, name), name),
        base.len() + name.len() <= joined(base, name).len() <= base.len() + 1 + name.len(),
{
    lemma_joined_name(base, name);
    let path = joined(base, name);
    assert(path.take(base.len() as int) =~= base);
    assert(path.skip(path.len() - name.len()) =~= name);
}

proof fn lemma_component_start_at(path: Seq<char>, body: int, start: int, end: int)
    requires
        0 <= body <= start <= end <= path.len(),
        forall|i: int| start <= i < end ==> !is_separator(#[trigger] path[i]),
        start > body ==> is_separator(path[start - 1]),
    ensures
        component_start(path, body, end, false) == start,
    decreases end - start,
{
    if end > start {
        assert(!is_separator(path[end - 1]));
        lemma_component_start_at(path, body, start, end - 1);
    }
}

proof fn lemma_drive_body(path: Seq<char>)
    requires
        is_on_drive(path),
    ensures
        prefix_of(path) == (Prefix::Drive, 2int),
        body_start(path) == 3,
{
    assert(!is_separator(path[0]));
    assert(path.skip(2)[0] == path[2]);
    assert(has_root(path));
}

/// Where the last name of a path stands.
proof fn lemma_last_name(dir: Seq<char>, name: Seq<char>) -> (start: int)
    requires
        is_on_drive(dir),
        is_plain_name(name),
    ensures
        ({
            let path = joined(dir, name);
            let end = path.len() as int;
            &&& is_on_drive(path)
            &&& start == end - name.len()
            &&& 3 <= start
            &&& dir.len() <= start <= dir.len() + 1
            &&& path.take(dir.len() as int) == dir
            &&& component_start(path, 3, end, false) == start
            &&& path.subrange(start, end) == name
            &&& named_end(path, 3, end, false) == end
            &&& start > 3 ==> is_separator(path[start - 1])
            &&& start == dir.len() + 1 || is_separator(dir.last())
        }),
{
    lemma_drive_body(dir);
    lemma_joined_name(dir, name);
    let path = joined(dir, name);
    let end = path.len() as int;
    let start = end - name.len();
    assert(path.take(dir.len() as int) =~= dir);
    assert(path[0] == dir[0] && path[1] == dir[1] && path[2] == dir[2]);
    assert forall|i: int| start <= i < end implies !is_separator(#[trigger] path[i]) by {
        assert(path[i] == name[i - start]);
    }
    if start == dir.len() {
        assert(path[start - 1] == dir.last());
    } else {
        assert(path[start - 1] == '\\');
    }
    lemma_component_start_at(path, 3, start, end);
    assert(path.subrange(start, end) =~= name);
    start
}

/// What is put behind a directory is the last name of the path, and a directory again.
pub proof fn law_joined_name_is_the_last(dir: Seq<char>, name: Seq<char>)
    requires
        is_on_drive(dir),
        is_plain_name(name),
    ensures
        name_of(joined(dir, name)) == Some(name),
        is_on_drive(joined(dir, name)),
{
    lemma_last_name(dir, name);
    lemma_drive_body(joined(dir, name));
}

/// The directory of what was put behind a directory is that directory.
pub proof fn law_joining_is_undone_by_the_parent(dir: Seq<char>, last: Seq<char>, name: Seq<char>)
    requires
        is_on_drive(dir),
        is_plain_name(last),
        is_plain_name(name),
    ensures
        parent_of(joined(joined(dir, last), name)) == Some(joined(dir, last)),
{
    let base = joined(dir, last);
    let from = lemma_last_name(dir, last);
    assert(base.last() == last.last()) by {
        assert(base.subrange(from, base.len() as int)[last.len() - 1] == base.last());
    }
    assert(!is_separator(last[last.len() - 1]));
    let start = lemma_last_name(base, name);
    let path = joined(base, name);
    lemma_drive_body(path);
    let cut = cut_at(3, start);
    assert(cut == base.len());
    assert forall|i: int| from <= i < cut implies !is_separator(#[trigger] path[i]) by {
        assert(path[i] == path.take(base.len() as int)[i]);
        assert(base[i] == base.subrange(from, base.len() as int)[i - from]);
        assert(!is_separator(last[i - from]));
    }
    if from > 3 {
        assert(path[from - 1] == path.take(base.len() as int)[from - 1]);
    }
    lemma_component_start_at(path, 3, from, cut);
    assert(path.subrange(from, cut) =~= last) by {
        assert(path.subrange(from, cut) =~= path.take(base.len() as int).subrange(from, cut));
    }
    assert(named_end(path, 3, cut, false) == cut);
}

proof fn lemma_last_dot_at(name: Seq<char>, dot: int, end: int)
    requires
        0 <= dot < end <= name.len(),
        name[dot] == '.',
        forall|i: int| dot < i < end ==> #[trigger] name[i] != '.',
    ensures
        last_dot(name, end) == dot,
    decreases end,
{
    if dot < end - 1 {
        assert(name[end - 1] != '.');
        lemma_last_dot_at(name, dot, end - 1);
    }
}

/// The extension of a file is what stands behind the last dot of its name.
pub proof fn law_extension_follows_the_last_dot(
    dir: Seq<char>,
    stem: Seq<char>,
    extension: Seq<char>,
)
    requires
        is_on_drive(dir),
        stem.len() > 0,
        is_plain_name(stem + seq!['.'] + extension),
        forall|i: int| 0 <= i < extension.len() ==> #[trigger] extension[i] != '.',
    ensures
        extension_of(joined(dir, stem + seq!['.'] + extension)) == Some(extension),
{
    let name = stem + seq!['.'] + extension;
    law_joined_name_is_the_last(dir, name);
    let dot = stem.len() as int;
    assert forall|i: int| dot < i < name.len() implies #[trigger] name[i] != '.' by {
        assert(name[i] == extension[i - dot - 1]);
    }
    lemma_last_dot_at(name, dot, name.len() as int);
    assert(name.skip(dot + 1) =~= extension);
}

/// A part that names its own drive or share stands for itself wherever it is seen from.
pub proof fn law_absolute_parts_stand_for_themselves(base: Seq<char>, part: Seq<char>)
    requires
        prefix_of(part).0 != Prefix::Absent,
    ensures
        joined(base, part) == part,
{
}

/// Writing a path with slashes changes the separators and nothing else.
pub proof fn law_slashes_replace_separators(path: Seq<char>)
    ensures
        with_slashes(path).len() == path.len(),
        forall|i: int|
            0 <= i < path.len() ==> (if is_separator(path[i]) {
                #[trigger] with_slashes(path)[i] == '/'
            } else {
                with_slashes(path)[i] == path[i]
            }),
        with_slashes(with_slashes(path)) == with_slashes(path),
        with_slashes(with_backslashes(path)) == with_slashes(path),
{
    assert(with_slashes(with_slashes(path)) =~= with_slashes(path));
    assert(with_slashes(with_backslashes(path)) =~= with_slashes(path));
}

} // verus!
