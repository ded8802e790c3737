//! Whether a newer version has been released.
use crate::text;
use crate::text::{decimal, opt_view, trimmed};
use crate::ui_state::UpdateNotice;
use vstd::prelude::*;

verus! {

pub const UPDATE_URL: &'static str = "https://arkruler-telemetry.z060606060606.online/update";

/// How long the request may take, in seconds.
pub const REQUEST_TIMEOUT_SECS: u64 = 4;

/// What is told of the latest release.
#[derive(Debug)]
pub struct UpdateResponse {
    pub version: String,
    pub release_title: String,
    pub html_url: String,
    pub download_url: Option<String>,
}

/// A version by its parts.
#[derive(Debug)]
pub struct ReleaseVersion {
    pub major: u64,
    pub minor: u64,
    pub patch: u64,
    pub pre: String,
    pub build: String,
}

#[verifier::ext_equal]
pub struct VersionView {
    pub major: u64,
    pub minor: u64,
    pub patch: u64,
    pub pre: Seq<char>,
    pub build: Seq<char>,
}

impl View for ReleaseVersion {
    type V = VersionView;

    open spec fn view(&self) -> VersionView {
        VersionView {
            major: self.major,
            minor: self.minor,
            patch: self.patch,
            pre: self.pre@,
            build: self.build@,
        }
    }
}

pub open spec fn opt_version(version: Option<ReleaseVersion>) -> Option<VersionView> {
    match version {
        Some(version) => Some(version@),
        None => None,
    }
}

/// A version as it is written.
pub open spec fn version_text(version: VersionView) -> Seq<char> {
    decimal(version.major as nat) + seq!['.'] + decimal(version.minor as nat) + seq!['.'] + decimal(
        version.patch as nat,
    ) + (if version.pre.len() == 0 {
        Seq::empty()
    } else {
        seq!['-'] + version.pre
    }) + (if version.build.len() == 0 {
        Seq::empty()
    } else {
        seq!['+'] + version.build
    })
}

/// How two things are ordered.
#[derive(Clone, Copy, Debug, PartialEq, Eq, Structural)]
pub enum Order {
    Less,
    Equal,
    Greater,
}

pub open spec fn reversed(order: Option<Order>) -> Option<Order> {
    match order {
        Some(Order::Less) => Some(Order::Greater),
        Some(Order::Equal) => Some(Order::Equal),
        Some(Order::Greater) => Some(Order::Less),
        None => None,
    }
}

/// The version that `semver` reads `text` as.
pub uninterp spec fn semver_parse(text: Seq<char>) -> Option<VersionView>;

/// How `semver` orders two texts as pre-release identifiers, where both are.
pub uninterp spec fn semver_prerelease_order(a: Seq<char>, b: Seq<char>) -> Option<Order>;

/// How `semver` orders two texts as build metadata, where both are.
pub uninterp spec fn semver_build_order(a: Seq<char>, b: Seq<char>) -> Option<Order>;

/// The scheme of the URL that `url` reads `text` as.
pub uninterp spec fn url_scheme(text: Seq<char>) -> Option<Seq<char>>;

/// `semver::Version::parse`. Which texts are versions is left unsaid; it is taken on trust that a
/// text that is one is what its parts are written as.
#[verifier::external_body]
fn parse_semver(text: &str) -> (version: Option<ReleaseVersion>)
    ensures
        opt_version(version) == semver_parse(text@),
        version matches Some(v) ==> text@ == version_text(v@),
{
    let version = semver::Version::parse(text).ok()?;
    Some(ReleaseVersion {
        major: version.major,
        minor: version.minor,
        patch: version.patch,
        pre: version.pre.to_string(),
        build: version.build.to_string(),
    })
}

/// The order of two `semver::Prerelease` values by their `Ord::cmp`, made from text by
/// `semver::Prerelease::new`. How identifiers are ordered is left unsaid; it is taken on trust
/// that equal ones are the same text, and that the other way round the order is the opposite one.
#[verifier::external_body]
fn prerelease_order(a: &str, b: &str) -> (order: Option<Order>)
    ensures
        order == semver_prerelease_order(a@, b@),
        order is Some ==> (order == Some(Order::Equal) <==> a@ == b@),
        order == reversed(semver_prerelease_order(b@, a@)),
{
    let a = semver::Prerelease::new(a).ok()?;
    let b = semver::Prerelease::new(b).ok()?;
    Some(match a.cmp(&b) {
        core::cmp::Ordering::Less => Order::Less,
        core::cmp::Ordering::Equal => Order::Equal,
        core::cmp::Ordering::Greater => Order::Greater,
    })
}

/// The order of two `semver::BuildMetadata` values by their `Ord::cmp`, made from text by
/// `semver::BuildMetadata::new`. How they are ordered is left unsaid; it is taken on trust that
/// equal ones are the same text, and that the other way round the order is the opposite one.
#[verifier::external_body]
fn build_order(a: &str, b: &str) -> (order: Option<Order>)
    ensures
        order == semver_build_order(a@, b@),
        order is Some ==> (order == Some(Order::Equal) <==> a@ == b@),
        order == reversed(semver_build_order(b@, a@)),
{
    let a = semver::BuildMetadata::new(a).ok()?;
    let b = semver::BuildMetadata::new(b).ok()?;
    Some(match a.cmp(&b) {
        core::cmp::Ordering::Less => Order::Less,
        core::cmp::Ordering::Equal => Order::Equal,
        core::cmp::Ordering::Greater => Order::Greater,
    })
}

/// The scheme of the URL that `reqwest::Url::parse` reads. Which texts are URLs, and which scheme
/// they have, is left unsaid.
#[verifier::external_body]
fn scheme_of(text: &str) -> (scheme: Option<String>)
    ensures
        opt_view(scheme) == url_scheme(text@),
{
    let url = reqwest::Url::parse(text).ok()?;
    Some(url.scheme().to_string())
}

/// `text` without the letters `v` at its start.
pub open spec fn without_marks(text: Seq<char>) -> Seq<char>
    decreases text.len(),
{
    if text.len() > 0 && text[0] == 'v' {
        without_marks(text.drop_first())
    } else {
        text
    }
}

/// The version that a text names, with or without a `v` before it.
pub open spec fn version_named(text: Seq<char>) -> Option<VersionView> {
    semver_parse(without_marks(trimmed(text)))
}

pub fn parse_version(value: &str) -> (version: Option<ReleaseVersion>)
    ensures
        opt_version(version) == version_named(value@),
        version matches Some(v) ==> without_marks(trimmed(value@)) == version_text(v@),
{
    let chars = text::to_chars(&text::trim(value));
    let mut i: usize = 0;
    assert(chars@.skip(0) =~= chars@);
    while i < chars.len() && chars[i] == 'v'
        invariant
            i <= chars@.len(),
            without_marks(chars@) == without_marks(chars@.skip(i as int)),
        decreases chars@.len() - i,
    {
        assert(chars@.skip(i as int).drop_first() =~= chars@.skip(i as int + 1));
        i += 1;
    }
    assert(chars@.subrange(i as int, chars@.len() as int) =~= chars@.skip(i as int));
    parse_semver(&text::from_char_range(&chars, i, chars.len()))
}

/// `a` is a later version than `b`: by the numbers first, then by the pre-release identifiers,
/// then by the build metadata.
pub open spec fn later(a: VersionView, b: VersionView) -> bool {
    if a.major != b.major {
        a.major > b.major
    } else if a.minor != b.minor {
        a.minor > b.minor
    } else if a.patch != b.patch {
        a.patch > b.patch
    } else if semver_prerelease_order(a.pre, b.pre) != Some(Order::Equal) {
        semver_prerelease_order(a.pre, b.pre) == Some(Order::Greater)
    } else {
        semver_build_order(a.build, b.build) == Some(Order::Greater)
    }
}

/// Whether `a` is a later version than `b`. No version is later than itself, and of two versions
/// at most one is later than the other.
pub fn is_later(a: &ReleaseVersion, b: &ReleaseVersion) -> (r: bool)
    ensures
        r == later(a@, b@),
        r ==> a@ != b@,
        r ==> !later(b@, a@),
{
    if a.major != b.major {
        a.major > b.major
    } else if a.minor != b.minor {
        a.minor > b.minor
    } else if a.patch != b.patch {
        a.patch > b.patch
    } else {
        match prerelease_order(&a.pre, &b.pre) {
            Some(Order::Equal) => match build_order(&a.build, &b.build) {
                Some(Order::Greater) => true,
                _ => false,
            },
            Some(Order::Greater) => true,
            _ => false,
        }
    }
}

/// The text is the address of a page.
pub open spec fn is_http_url(text: Seq<char>) -> bool {
    url_scheme(text) == Some("http"@) || url_scheme(text) == Some("https"@)
}

pub fn valid_http_url(value: &str) -> (b: bool)
    ensures
        b == is_http_url(value@),
{
    match scheme_of(value) {
        Some(scheme) => text::same(&scheme, "http") || text::same(&scheme, "https"),
        None => false,
    }
}

/// What is told of a newer version.
#[verifier::ext_equal]
pub struct NoticeView {
    pub version: Seq<char>,
    pub release_title: Seq<char>,
    pub html_url: Seq<char>,
    pub download_url: Option<Seq<char>>,
}

pub open spec fn notice_view(notice: Option<UpdateNotice>) -> Option<NoticeView> {
    match notice {
        Some(notice) => Some(
            NoticeView {
                version: notice.version@,
                release_title: notice.release_title@,
                html_url: notice.html_url@,
                download_url: opt_view(notice.download_url),
            },
        ),
        None => None,
    }
}

/// What to tell of a release: nothing unless it is newer than the running version and has a page.
/// A download that is no address is left out.
pub open spec fn notice_of(current: Option<VersionView>, remote: Option<VersionView>, response:
    UpdateResponse) -> Option<NoticeView> {
    match (current, remote) {
        (Some(current), Some(remote)) => if later(remote, current) && is_http_url(
            response.html_url@,
        ) {
            Some(
                NoticeView {
                    version: version_text(remote),
                    release_title: response.release_title@,
                    html_url: response.html_url@,
                    download_url: match response.download_url {
                        Some(url) => if is_http_url(url@) {
                            Some(url@)
                        } else {
                            None
                        },
                        None => None,
                    },
                },
            )
        } else {
            None
        },
        _ => None,
    }
}

/// What to tell of a release to users of the running version.
pub fn notice_from_response(current_version: &str, response: &UpdateResponse) -> (notice: Option<
    UpdateNotice,
>)
    ensures
        notice_view(notice) == notice_of(
            version_named(current_version@),
            version_named(response.version@),
            *response,
        ),
        notice is Some ==> without_marks(trimmed(response.version@)) != without_marks(
            trimmed(current_version@),
        ),
{
    match (parse_version(current_version), parse_version(&response.version)) {
        (Some(current), Some(remote)) => {
            if !is_later(&remote, &current) || !valid_http_url(&response.html_url) {
                return None;
            }
            let download_url = match &response.download_url {
                Some(url) => if valid_http_url(url) {
                    Some(url.clone())
                } else {
                    None
                },
                None => None,
            };
            Some(
                UpdateNotice {
                    version: write_version(&remote),
                    release_title: response.release_title.clone(),
                    html_url: response.html_url.clone(),
                    download_url,
                },
            )
        },
        _ => None,
    }
}

fn write_version(version: &ReleaseVersion) -> (s: String)
    ensures
        s@ == version_text(version@),
{
    let mut s = text::decimal_of(version.major);
    s.push('.');
    text::push_decimal(&mut s, version.minor);
    s.push('.');
    text::push_decimal(&mut s, version.patch);
    if !version.pre.as_str().is_empty() {
        s.push('-');
        s.append(&version.pre);
    }
    if !version.build.as_str().is_empty() {
        s.push('+');
        s.append(&version.build);
    }
    assert(s@ =~= version_text(version@));
    s
}

/// How the program names itself to the server.
pub fn user_agent(version: &str) -> (s: String)
    ensures
        s@ == "ArknightsCostBarRuler/"@ + version@,
{
    let mut s = "ArknightsCostBarRuler/".to_owned();
    s.append(version);
    s
}

/// A release is told of by the version that it has, its title and its page, and only where its
/// numbers are not behind those of the running version.
pub proof fn law_notices_tell_of_newer_releases(
    current: VersionView,
    remote: VersionView,
    response: UpdateResponse,
)
    requires
        notice_of(Some(current), Some(remote), response) is Some,
    ensures
        later(remote, current),
        (remote.major, remote.minor, remote.patch) != (current.major, current.minor, current.patch)
            ==> !later(current, remote),
        notice_of(Some(current), Some(remote), response)->0.version == version_text(remote),
        is_http_url(notice_of(Some(current), Some(remote), response)->0.html_url),
{
}

/// A greater number makes a later version: the first in which two versions differ decides, whatever
/// follows it. With the same numbers the pre-release identifiers decide, and then the build.
pub proof fn law_first_difference_decides(a: VersionView, b: VersionView)
    ensures
        a.major > b.major ==> later(a, b) && !later(b, a),
        a.major == b.major && a.minor > b.minor ==> later(a, b) && !later(b, a),
        a.major == b.major && a.minor == b.minor && a.patch > b.patch ==> later(a, b) && !later(
            b,
            a,
        ),
        a.major == b.major && a.minor == b.minor && a.patch == b.patch ==> {
            &&& semver_prerelease_order(a.pre, b.pre) == Some(Order::Greater) ==> later(a, b)
            &&& semver_prerelease_order(a.pre, b.pre) == Some(Order::Less) ==> !later(a, b)
            &&& semver_prerelease_order(a.pre, b.pre) == Some(Order::Equal) ==> later(a, b) == (
            semver_build_order(a.build, b.build) == Some(Order::Greater))
        },
{
}

/// A release with greater numbers that has a page is told of, with all that was said of it: its
/// title, its page, and the download where that is an address. One that is behind is not.
pub proof fn law_newer_releases_are_told_in_full(
    current: VersionView,
    remote: VersionView,
    response: UpdateResponse,
)
    requires
        remote.major > current.major || (remote.major == current.major && remote.minor
            > current.minor),
    ensures
        notice_of(Some(current), Some(remote), response) is Some <==> is_http_url(
            response.html_url@,
        ),
        notice_of(Some(current), Some(remote), response) matches Some(notice) ==> {
            &&& notice.version == version_text(remote)
            &&& notice.release_title == response.release_title@
            &&& notice.html_url == response.html_url@
            &&& notice.download_url matches Some(url) ==> is_http_url(url) && opt_view(
                response.download_url,
            ) == Some(url)
            &&& notice.download_url is None ==> (response.download_url matches Some(url)
                ==> !is_http_url(url@))
        },
        notice_of(Some(remote), Some(current), response) is None,
        notice_of(None, Some(remote), response) is None,
        notice_of(Some(current), None, response) is None,
{
}

/// Marks before a version do not matter, one or many, and all of them go; nothing else does.
pub proof fn law_marks_do_not_matter(text: Seq<char>)
    ensures
        without_marks(seq!['v'] + text) == without_marks(text),
        without_marks(text).len() > 0 ==> without_marks(text)[0] != 'v',
        without_marks(text).len() <= text.len(),
        without_marks(text) == text.skip(text.len() - without_marks(text).len()),
        forall|i: int| 0 <= i < text.len() - without_marks(text).len() ==> text[i] == 'v',
    decreases text.len(),
{
    assert((seq!['v'] + text).drop_first() =~= text);
    if text.len() > 0 && text[0] == 'v' {
        let rest = text.drop_first();
        law_marks_do_not_matter(rest);
        let gone = rest.len() - without_marks(rest).len();
        assert(rest.skip(gone) =~= text.skip(gone + 1));
        assert forall|i: int| 0 <= i < gone + 1 implies text[i] == 'v' by {
            if i > 0 {
                assert(text[i] == rest[i - 1]);
            }
        }
    } else {
        assert(text.skip(0) =~= text);
    }
}

/// A version is written with its numbers in their order, what is told of a pre-release behind a
/// dash and what is told of the build behind a plus.
pub proof fn law_versions_are_written_by_their_parts(version: VersionView)
    ensures
        ({
            let numbers = decimal(version.major as nat) + "."@ + decimal(version.minor as nat)
                + "."@ + decimal(version.patch as nat);
            &&& text::starts_with(version_text(version), numbers)
            &&& version.pre.len() == 0 && version.build.len() == 0 ==> version_text(version)
                == numbers
            &&& version.pre.len() > 0 && version.build.len() == 0 ==> version_text(version)
                == numbers + "-"@ + version.pre
            &&& version.pre.len() == 0 && version.build.len() > 0 ==> version_text(version)
                == numbers + "+"@ + version.build
        }),
{
    reveal_strlit(".");
    reveal_strlit("-");
    reveal_strlit("+");
    assert("."@ =~= seq!['.']);
    assert("-"@ =~= seq!['-']);
    assert("+"@ =~= seq!['+']);
    let numbers = decimal(version.major as nat) + "."@ + decimal(version.minor as nat) + "."@
        + decimal(version.patch as nat);
    assert(version_text(version).take(numbers.len() as int) =~= numbers);
    if version.pre.len() == 0 && version.build.len() == 0 {
        assert(version_text(version) =~= numbers);
    }
    if version.pre.len() > 0 && version.build.len() == 0 {
        assert(version_text(version) =~= numbers + "-"@ + version.pre);
    }
    if version.pre.len() == 0 && version.build.len() > 0 {
        assert(version_text(version) =~= numbers + "+"@ + version.build);
    }
}

} // verus!
