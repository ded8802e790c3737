//! The random name under which an installation reports: kept in the configuration, and in a file
//! that outlives it.
use crate::config::RulerConfig;
use crate::json;
use crate::json::string_text;
use crate::paths;
use crate::paths::joined;
use crate::text;
use crate::text::{is_digit, opt_view, trimmed};
use vstd::prelude::*;

verus! {

pub const APP_DATA_DIR_NAME: &'static str = "ArknightsCostBarRuler";

pub const IDENTITY_FILE_NAME: &'static str = "telemetry_identity.json";

/// The environment variable that names another file.
pub const IDENTITY_PATH_ENV: &'static str = "ARKNIGHTS_RULER_TELEMETRY_IDENTITY_PATH";

pub open spec fn is_lower_hex(c: char) -> bool {
    is_digit(c) || 'a' <= c <= 'f'
}

/// The text has the form of a random UUID: groups of 8, 4, 4, 4 and 12 hexadecimal digits, of
/// which two say that it is random.
pub open spec fn is_random_uuid(s: Seq<char>) -> bool {
    &&& s.len() == 36
    &&& s[8] == '-' && s[13] == '-' && s[18] == '-' && s[23] == '-'
    &&& forall|i: int|
        0 <= i < 36 && i != 8 && i != 13 && i != 18 && i != 23 ==> is_lower_hex(#[trigger] s[i])
    &&& s[14] == '4'
    &&& s[19] == '8' || s[19] == '9' || s[19] == 'a' || s[19] == 'b'
}

/// A random UUID from `uuid::Uuid::new_v4`, in the form that its `hyphenated` writes. It is taken
/// on trust that this has the form of one; which one it is is left to chance.
#[verifier::external_body]
pub(crate) fn new_uuid() -> (uuid: String)
    ensures
        is_random_uuid(uuid@),
{
    uuid::Uuid::new_v4().hyphenated().to_string()
}

/// `value` without white space around it, where anything is left.
pub open spec fn normalized(value: Option<Seq<char>>) -> Option<Seq<char>> {
    match value {
        Some(s) => if trimmed(s).len() == 0 {
            None
        } else {
            Some(trimmed(s))
        },
        None => None,
    }
}

pub fn normalized_uuid(value: &Option<String>) -> (uuid: Option<String>)
    ensures
        opt_view(uuid) == normalized(opt_view(*value)),
{
    match value {
        Some(s) => {
            let s = text::trim(s);
            if s.as_str().is_empty() {
                None
            } else {
                Some(s)
            }
        },
        None => None,
    }
}

/// The name to report under: the configuration's, or else the one in the file.
pub open spec fn known_uuid(config: RulerConfig, stored: Option<Seq<char>>) -> Option<Seq<char>> {
    match normalized(opt_view(config.uuid)) {
        Some(uuid) => Some(uuid),
        None => normalized(stored),
    }
}

/// The name to report under, where one is known. The second result says that it is the
/// configuration's and has to be written to the file.
pub fn config_or_stable_uuid_at(config: &RulerConfig, stored: &Option<String>) -> (r: (
    Option<String>,
    bool,
))
    ensures
        opt_view(r.0) == known_uuid(*config, opt_view(*stored)),
        r.1 == (normalized(opt_view(config.uuid)) is Some),
{
    match normalized_uuid(&config.uuid) {
        Some(uuid) => (Some(uuid), true),
        None => (normalized_uuid(stored), false),
    }
}

/// The configuration has a name: its own, the one in the file, or a new one; and whether the file
/// has yet to hold it.
pub open spec fn is_named(
    before: RulerConfig,
    stored: Option<Seq<char>>,
    after: RulerConfig,
    persist: bool,
) -> bool {
    &&& after == (RulerConfig { uuid: after.uuid, ..before })
    &&& match known_uuid(before, stored) {
        Some(uuid) => opt_view(after.uuid) == Some(uuid),
        None => after.uuid is Some && is_random_uuid(after.uuid->0@),
    }
    &&& persist == !(normalized(opt_view(before.uuid)) is None && normalized(stored) is Some)
}

/// Sees to it that the configuration has a name: its own, the one in the file, or a new one. The
/// result says whether it has to be written to the file.
pub fn ensure_config_uuid_at(config: &mut RulerConfig, stored: &Option<String>) -> (persist: bool)
    ensures
        is_named(*old(config), opt_view(*stored), *final(config), persist),
{
    let (known, from_config) = config_or_stable_uuid_at(config, stored);
    match known {
        Some(uuid) => {
            config.uuid = Some(uuid);
            from_config
        },
        None => {
            config.uuid = Some(new_uuid());
            true
        },
    }
}

/// What the environment says of the places of the file.
#[derive(Debug)]
pub struct IdentityEnvironment {
    pub identity_path: Option<String>,
    pub local_app_data: Option<String>,
    pub app_data: Option<String>,
    pub state_home: Option<String>,
}

/// The value, unless it is absent or empty.
pub open spec fn given(value: Option<String>) -> Option<Seq<char>> {
    match value {
        Some(s) => if s@.len() == 0 {
            None
        } else {
            Some(s@)
        },
        None => None,
    }
}

/// The directory for data of programs.
pub open spec fn data_root(env: IdentityEnvironment) -> Option<Seq<char>> {
    match given(env.local_app_data) {
        Some(dir) => Some(dir),
        None => match given(env.app_data) {
            Some(dir) => Some(dir),
            None => given(env.state_home),
        },
    }
}

/// Where the file is.
pub open spec fn identity_place(env: IdentityEnvironment) -> Option<Seq<char>> {
    match given(env.identity_path) {
        Some(path) => Some(path),
        None => match data_root(env) {
            Some(root) => Some(joined(joined(root, APP_DATA_DIR_NAME@), IDENTITY_FILE_NAME@)),
            None => None,
        },
    }
}

fn env_path(value: &Option<String>) -> (path: Option<String>)
    ensures
        opt_view(path) == given(*value),
{
    match value {
        Some(s) => if s.as_str().is_empty() {
            None
        } else {
            Some(s.clone())
        },
        None => None,
    }
}

fn appdata_root(env: &IdentityEnvironment) -> (root: Option<String>)
    ensures
        opt_view(root) == data_root(*env),
{
    match env_path(&env.local_app_data) {
        Some(dir) => Some(dir),
        None => match env_path(&env.app_data) {
            Some(dir) => Some(dir),
            None => env_path(&env.state_home),
        },
    }
}

pub fn stable_identity_path(env: &IdentityEnvironment) -> (path: Option<String>)
    ensures
        opt_view(path) == identity_place(*env),
{
    match env_path(&env.identity_path) {
        Some(path) => Some(path),
        None => match appdata_root(env) {
            Some(root) => Some(
                paths::join(&paths::join(&root, APP_DATA_DIR_NAME), IDENTITY_FILE_NAME),
            ),
            None => None,
        },
    }
}

/// The file's contents.
pub open spec fn identity_text(uuid: Seq<char>) -> Seq<char> {
    "{\n  \"uuid\": "@ + string_text(uuid) + "\n}"@
}

pub fn write_identity(uuid: &str) -> (contents: String)
    ensures
        contents@ == identity_text(uuid@),
{
    let mut contents = "{\n  \"uuid\": ".to_owned();
    contents.append(&json::write_string(uuid));
    contents.append("\n}");
    contents
}

/// A name that is known is kept: with it in the configuration, it is known whatever the file
/// holds, and knowing it again gives the same.
pub proof fn law_known_uuid_is_kept(config: RulerConfig, uuid: String, stored: Option<Seq<char>>, other:
    Option<Seq<char>>)
    requires
        known_uuid(config, stored) == Some(uuid@),
    ensures
        known_uuid(RulerConfig { uuid: Some(uuid), ..config }, other) == Some(uuid@),
        known_uuid(RulerConfig { uuid: None, ..config }, Some(uuid@)) == Some(uuid@),
{
    assert(trimmed(uuid@) == uuid@ && uuid@.len() > 0) by {
        let s = match normalized(opt_view(config.uuid)) {
            Some(_) => opt_view(config.uuid)->0,
            None => stored->0,
        };
        assert(uuid@ == trimmed(s));
        lemma_trimmed_settles(s);
    }
}

/// What is trimmed stays as it is when trimmed again.
pub proof fn lemma_trimmed_settles(s: Seq<char>)
    ensures
        trimmed(trimmed(s)) == trimmed(s),
{
    let t = text::trimmed_start(s);
    lemma_trimmed_start(s);
    lemma_trimmed_end(t);
    let u = text::trimmed_end(t);
    if u.len() > 0 {
        assert(u[0] == t[0]);
    }
}

proof fn lemma_trimmed_start(s: Seq<char>)
    ensures
        text::trimmed_start(s).len() == 0 || !text::is_white_space(text::trimmed_start(s)[0]),
    decreases s.len(),
{
    if s.len() > 0 && text::is_white_space(s[0]) {
        lemma_trimmed_start(s.drop_first());
    }
}

proof fn lemma_trimmed_end(s: Seq<char>)
    ensures
        text::trimmed_end(s).len() == 0 || (!text::is_white_space(text::trimmed_end(s).last())
            && text::trimmed_end(s)[0] == s[0]),
        text::trimmed_end(s).len() <= s.len(),
    decreases s.len(),
{
    if s.len() > 0 && text::is_white_space(s.last()) {
        lemma_trimmed_end(s.drop_last());
    }
}

/// A name of the configuration is preferred to the one in the file, and either to none; white space
/// around a name, or nothing but that, does not make one.
pub proof fn law_configured_name_is_preferred(config: RulerConfig, stored: Option<Seq<char>>)
    ensures
        config.uuid matches Some(uuid) ==> (trimmed(uuid@).len() > 0 ==> known_uuid(config, stored)
            == Some(trimmed(uuid@))),
        (config.uuid matches Some(uuid) ==> trimmed(uuid@).len() == 0) ==> known_uuid(config, stored)
            == normalized(stored),
        normalized(stored) is Some <==> (stored matches Some(s) && trimmed(s).len() > 0),
        normalized(normalized(stored)) == normalized(stored),
{
    if let Some(s) = stored {
        lemma_trimmed_settles(s);
    }
}

/// The file lies where the environment says; without that, in the program's own directory below the
/// first of the places for data that is given.
pub proof fn law_identity_lies_where_it_is_told(env: IdentityEnvironment)
    ensures
        env.identity_path matches Some(path) ==> (path@.len() > 0 ==> identity_place(env) == Some(
            path@,
        )),
        given(env.identity_path) is None ==> {
            let below = |root: Seq<char>| joined(joined(root, APP_DATA_DIR_NAME@), IDENTITY_FILE_NAME@);
            &&& given(env.local_app_data) matches Some(root) ==> identity_place(env) == Some(
                below(root),
            )
            &&& given(env.local_app_data) is None ==> (given(env.app_data) matches Some(root)
                ==> identity_place(env) == Some(below(root)))
            &&& given(env.local_app_data) is None && given(env.app_data) is None ==> (given(
                env.state_home,
            ) matches Some(root) ==> identity_place(env) == Some(below(root)))
            &&& identity_place(env) is None <==> given(env.local_app_data) is None && given(
                env.app_data,
            ) is None && given(env.state_home) is None
        },
{
}

/// Once a configuration was given a name, and the file was written where that was asked for, both
/// hold the same name; and giving it one again keeps it, whatever the file holds by then.
pub proof fn law_file_and_configuration_agree(
    before: RulerConfig,
    stored: Option<Seq<char>>,
    after: RulerConfig,
    persist: bool,
    later_stored: Option<Seq<char>>,
    again: RulerConfig,
    persist_again: bool,
)
    requires
        is_named(before, stored, after, persist),
        is_named(after, later_stored, again, persist_again),
        normalized(opt_view(after.uuid)) is Some,
    ensures
        normalized(
            if persist {
                opt_view(after.uuid)
            } else {
                stored
            },
        ) == normalized(opt_view(after.uuid)),
        normalized(opt_view(again.uuid)) == normalized(opt_view(after.uuid)),
        normalized(opt_view(before.uuid)) is Some ==> normalized(opt_view(after.uuid))
            == normalized(opt_view(before.uuid)),
{
    if let Some(s) = stored {
        lemma_trimmed_settles(s);
    }
    if let Some(uuid) = before.uuid {
        lemma_trimmed_settles(uuid@);
    }
    if let Some(uuid) = after.uuid {
        lemma_trimmed_settles(uuid@);
    }
}

/// The file holds the name as JSON writes it, under its key.
pub proof fn law_file_holds_the_name(uuid: Seq<char>)
    ensures
        text::starts_with(identity_text(uuid), "{\n  \"uuid\": "@ + string_text(uuid)),
        text::ends_with(identity_text(uuid), string_text(uuid) + "\n}"@),
{
    let whole = identity_text(uuid);
    let front = "{\n  \"uuid\": "@ + string_text(uuid);
    let back = string_text(uuid) + "\n}"@;
    assert(whole.take(front.len() as int) =~= front);
    assert(whole.skip(whole.len() - back.len()) =~= back);
}

} // verus!
