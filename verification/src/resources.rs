//! Where the program finds and keeps its files.
use crate::paths;
use crate::paths::{join_all, joined, joined_all, parent_of};
use crate::text;
use crate::text::{opt_view, trimmed, views};
use vstd::prelude::*;

verus! {

/// What the environment says of places. An empty value counts as absent.
#[derive(Debug)]
pub struct ResourceEnvironment {
    pub project_root: String,
    pub exe_dir: Option<String>,
    pub working_dir: Option<String>,
    pub config_dir: Option<String>,
    pub config_path: Option<String>,
    pub calibration_dir: Option<String>,
    pub data_dir: Option<String>,
    pub log_dir: Option<String>,
    pub recordings_dir: Option<String>,
}

#[derive(Debug)]
pub struct ResourceLocator {
    pub project_root: String,
    pub exe_dir: Option<String>,
    pub config_path: String,
    pub calibration_dir: String,
    pub data_dir: String,
    pub log_dir_override: Option<String>,
}

/// The value, unless it is absent or empty.
pub open spec fn set_value(value: Option<String>) -> Option<Seq<char>> {
    match value {
        Some(s) => if s@.len() == 0 {
            None
        } else {
            Some(s@)
        },
        None => None,
    }
}

pub open spec fn or_else(value: Option<Seq<char>>, other: Seq<char>) -> Seq<char> {
    match value {
        Some(s) => s,
        None => other,
    }
}

pub open spec fn working_dir_of(env: ResourceEnvironment) -> Seq<char> {
    or_else(opt_view(env.working_dir), or_else(opt_view(env.exe_dir), env.project_root@))
}

pub open spec fn config_dir_of(env: ResourceEnvironment) -> Seq<char> {
    or_else(set_value(env.config_dir), working_dir_of(env))
}

pub open spec fn config_path_of(env: ResourceEnvironment) -> Seq<char> {
    or_else(set_value(env.config_path), joined(config_dir_of(env), "config.json"@))
}

/// The directory that the configuration file lies in.
pub open spec fn config_root_of(env: ResourceEnvironment) -> Seq<char> {
    match parent_of(config_path_of(env)) {
        Some(parent) => if parent.len() == 0 {
            config_dir_of(env)
        } else {
            parent
        },
        None => config_dir_of(env),
    }
}

pub open spec fn log_dir_of(env: ResourceEnvironment) -> Option<Seq<char>> {
    match set_value(env.log_dir) {
        Some(dir) => Some(dir),
        None => set_value(env.recordings_dir),
    }
}

fn set(value: &Option<String>) -> (r: Option<String>)
    ensures
        opt_view(r) == set_value(*value),
{
    match value {
        Some(s) => if s.as_str().is_empty() {
            None
        } else {
            Some(s.clone())
        },
        None => None,
    }
}

fn set_or(value: &Option<String>, other: String) -> (r: String)
    ensures
        r@ == or_else(set_value(*value), other@),
{
    match set(value) {
        Some(s) => s,
        None => other,
    }
}

/// The first of `candidates` that exists, or the first of all where none does.
pub open spec fn first_existing(candidates: Seq<Seq<char>>, existing: Seq<bool>) -> Seq<char> {
    candidates[first_set(existing.take(if existing.len() < candidates.len() {
        existing.len() as int
    } else {
        candidates.len() as int
    }))]
}

/// The place of the first `true`; zero where there is none.
pub open spec fn first_set(flags: Seq<bool>) -> int
    decreases flags.len(),
{
    if flags.len() == 0 {
        0
    } else if flags.drop_last().contains(true) {
        first_set(flags.drop_last())
    } else if flags.last() {
        flags.len() - 1
    } else {
        0
    }
}

fn pick_existing(candidates: Vec<String>, existing: &Vec<bool>) -> (path: String)
    requires
        candidates@.len() > 0,
    ensures
        path@ == first_existing(views(candidates@), existing@),
{
    let n: usize = if existing.len() < candidates.len() {
        existing.len()
    } else {
        candidates.len()
    };
    let ghost flags = existing@.take(n as int);
    let mut i: usize = 0;
    while i < n
        invariant
            i <= n <= candidates@.len(),
            n <= existing@.len(),
            flags == existing@.take(n as int),
            forall|k: int| 0 <= k < i ==> !existing@[k],
            existing@.len() < candidates@.len() ==> n == existing@.len(),
            existing@.len() >= candidates@.len() ==> n == candidates@.len(),
        decreases n - i,
    {
        if existing[i] {
            proof {
                lemma_first_set(flags, i as int);
            }
            assert(views(candidates@)[i as int] == candidates@[i as int]@);
            return candidates[i].clone();
        }
        i += 1;
    }
    proof {
        lemma_none_set(flags);
    }
    assert(views(candidates@)[0] == candidates@[0]@);
    candidates[0].clone()
}

proof fn lemma_first_set(flags: Seq<bool>, n: int)
    requires
        0 <= n < flags.len(),
        flags[n],
        forall|k: int| 0 <= k < n ==> !flags[k],
    ensures
        first_set(flags) == n,
    decreases flags.len(),
{
    if n < flags.len() - 1 {
        assert(flags.drop_last()[n]);
        lemma_first_set(flags.drop_last(), n);
    } else {
        assert(!flags.drop_last().contains(true));
    }
}

proof fn lemma_none_set(flags: Seq<bool>)
    requires
        forall|k: int| 0 <= k < flags.len() ==> !flags[k],
    ensures
        first_set(flags) == 0,
{
    if flags.len() > 0 {
        assert(!flags.drop_last().contains(true));
    }
}

/// A configured log directory, seen from the data directory; else the one from the environment;
/// else `log` in the data directory.
pub open spec fn log_root(locator: ResourceLocator, configured: Option<Seq<char>>) -> Seq<char> {
    let chosen = match configured {
        Some(value) => if trimmed(value).len() == 0 {
            None
        } else {
            Some(trimmed(value))
        },
        None => None,
    };
    match chosen {
        Some(value) => joined(locator.data_dir@, value),
        None => match locator.log_dir_override {
            Some(dir) => dir@,
            None => joined(locator.data_dir@, "log"@),
        },
    }
}

pub open spec fn icon_places(locator: ResourceLocator, name: Seq<char>) -> Seq<Seq<char>> {
    seq![
        joined_all(locator.project_root@, seq!["icons"@, name]),
        joined_all(exe_root(locator), seq!["icons"@, name]),
        joined_all(exe_root(locator), seq!["_internal"@, "icons"@, name]),
    ]
}

pub open spec fn locale_places(locator: ResourceLocator, locale: Seq<char>) -> Seq<Seq<char>> {
    let name = locale + ".json"@;
    seq![
        joined_all(locator.project_root@, seq!["ruler"@, "locales"@, name]),
        joined_all(exe_root(locator), seq!["ruler"@, "locales"@, name]),
        joined_all(exe_root(locator), seq!["locales"@, name]),
        joined_all(exe_root(locator), seq!["_internal"@, "ruler"@, "locales"@, name]),
    ]
}

/// The directory of the program, or the project where that is unknown.
pub open spec fn exe_root(locator: ResourceLocator) -> Seq<char> {
    or_else(opt_view(locator.exe_dir), locator.project_root@)
}

/// The places that the environment leads to.
pub open spec fn leads_to(env: ResourceEnvironment, locator: ResourceLocator) -> bool {
    &&& locator.project_root@ == env.project_root@
    &&& opt_view(locator.exe_dir) == opt_view(env.exe_dir)
    &&& locator.config_path@ == config_path_of(env)
    &&& locator.calibration_dir@ == or_else(
        set_value(env.calibration_dir),
        joined(config_root_of(env), "calibration"@),
    )
    &&& locator.data_dir@ == or_else(set_value(env.data_dir), config_root_of(env))
    &&& opt_view(locator.log_dir_override) == log_dir_of(env)
}

impl ResourceLocator {
    /// The places that `env` leads to.
    #[must_use]
    pub fn new(env: &ResourceEnvironment) -> (locator: Self)
        ensures
            leads_to(*env, locator),
    {
        let working_dir = match &env.working_dir {
            Some(dir) => dir.clone(),
            None => match &env.exe_dir {
                Some(dir) => dir.clone(),
                None => env.project_root.clone(),
            },
        };
        let config_dir = set_or(&env.config_dir, working_dir);
        let config_path = set_or(&env.config_path, paths::join(&config_dir, "config.json"));
        let config_root = match paths::parent(&config_path) {
            Some(parent) => if parent.as_str().is_empty() {
                config_dir
            } else {
                parent
            },
            None => config_dir,
        };
        let calibration_dir = set_or(
            &env.calibration_dir,
            paths::join(&config_root, "calibration"),
        );
        let data_dir = set_or(&env.data_dir, config_root);
        let log_dir_override = match set(&env.log_dir) {
            Some(dir) => Some(dir),
            None => set(&env.recordings_dir),
        };
        ResourceLocator {
            project_root: env.project_root.clone(),
            exe_dir: env.exe_dir.clone(),
            config_path,
            calibration_dir,
            data_dir,
            log_dir_override,
        }
    }

    #[must_use]
    pub fn config_path(&self) -> (path: String)
        ensures
            path@ == self.config_path@,
    {
        self.config_path.clone()
    }

    #[must_use]
    pub fn calibration_dir(&self) -> (path: String)
        ensures
            path@ == self.calibration_dir@,
    {
        self.calibration_dir.clone()
    }

    #[must_use]
    pub fn log_root_dir(&self, configured: Option<&str>) -> (path: String)
        ensures
            path@ == log_root(
                *self,
                match configured {
                    Some(value) => Some(value@),
                    None => None,
                },
            ),
    {
        if let Some(value) = configured {
            let value = text::trim(value);
            if !value.as_str().is_empty() {
                return paths::join(&self.data_dir, &value);
            }
        }
        match &self.log_dir_override {
            Some(dir) => dir.clone(),
            None => paths::join(&self.data_dir, "log"),
        }
    }

    fn exe_dir_or_root(&self) -> (path: String)
        ensures
            path@ == exe_root(*self),
    {
        match &self.exe_dir {
            Some(dir) => dir.clone(),
            None => self.project_root.clone(),
        }
    }

    /// The places where an icon can lie, the preferred one first.
    pub fn icon_candidates(&self, name: &str) -> (places: Vec<String>)
        ensures
            views(places@) == icon_places(*self, name@),
    {
        let project_place = join_all(self.project_root.clone(), vec!["icons", name]);
        let exe_place = join_all(self.exe_dir_or_root(), vec!["icons", name]);
        let internal_place = join_all(self.exe_dir_or_root(), vec!["_internal", "icons", name]);
        proof {
            assert(seq!["icons", name].map_values(|s: &str| s@) =~= seq!["icons"@, name@]);
            assert(seq!["_internal", "icons", name].map_values(|s: &str| s@)
                =~= seq!["_internal"@, "icons"@, name@]);
        }
        let places = vec![project_place, exe_place, internal_place];
        assert(views(places@) =~= icon_places(*self, name@));
        places
    }

    /// The icon's place, given which of its candidates exist.
    #[must_use]
    pub fn icon_path(&self, name: &str, existing: &Vec<bool>) -> (path: String)
        ensures
            path@ == first_existing(icon_places(*self, name@), existing@),
    {
        let places = self.icon_candidates(name);
        assert(places@.len() == icon_places(*self, name@).len());
        pick_existing(places, existing)
    }

    /// The places where the texts of a locale can lie, the preferred one first.
    pub fn locale_candidates(&self, locale: &str) -> (places: Vec<String>)
        ensures
            views(places@) == locale_places(*self, locale@),
    {
        let mut name = locale.to_owned();
        name.append(".json");
        let project_place = join_all(
            self.project_root.clone(),
            vec!["ruler", "locales", name.as_str()],
        );
        let exe_place = join_all(
            self.exe_dir_or_root(),
            vec!["ruler", "locales", name.as_str()],
        );
        let flat_place = join_all(self.exe_dir_or_root(), vec!["locales", name.as_str()]);
        let internal_place = join_all(
            self.exe_dir_or_root(),
            vec!["_internal", "ruler", "locales", name.as_str()],
        );
        proof {
            let n = name@;
            assert(forall|x: &str| #![auto] x@ == n ==> seq!["ruler", "locales", x].map_values(
                |s: &str| s@,
            ) =~= seq!["ruler"@, "locales"@, n]);
            assert(forall|x: &str| #![auto] x@ == n ==> seq!["locales", x].map_values(
                |s: &str| s@,
            ) =~= seq!["locales"@, n]);
            assert(forall|x: &str| #![auto] x@ == n ==> seq![
                "_internal",
                "ruler",
                "locales",
                x,
            ].map_values(|s: &str| s@) =~= seq!["_internal"@, "ruler"@, "locales"@, n]);
        }
        let places = vec![project_place, exe_place, flat_place, internal_place];
        assert(views(places@) =~= locale_places(*self, locale@));
        places
    }

    /// The place of a locale's texts, given which of its candidates exist.
    #[must_use]
    pub fn locale_path(&self, locale: &str, existing: &Vec<bool>) -> (path: String)
        ensures
            path@ == first_existing(locale_places(*self, locale@), existing@),
    {
        let places = self.locale_candidates(locale);
        assert(places@.len() == locale_places(*self, locale@).len());
        pick_existing(places, existing)
    }
}

/// A log directory with a drive or a share is used as it is, whatever the data directory.
pub proof fn law_absolute_log_root_is_kept(locator: ResourceLocator, configured: Seq<char>)
    requires
        paths::prefix_of(configured).0 != paths::Prefix::Absent,
        trimmed(configured) == configured,
    ensures
        log_root(locator, Some(configured)) == configured,
{
}

/// The value is there and not empty.
pub open spec fn says(value: Option<String>, place: Seq<char>) -> bool {
    place.len() > 0 && opt_view(value) == Some(place)
}

/// The value is absent or empty.
pub open spec fn says_nothing(value: Option<String>) -> bool {
    value matches Some(s) ==> s@.len() == 0
}

/// A place that the environment names is used as it is, whatever else is named; the directory of
/// logs before that of recordings.
pub proof fn law_named_places_are_used(
    env: ResourceEnvironment,
    locator: ResourceLocator,
    place: Seq<char>,
)
    requires
        leads_to(env, locator),
    ensures
        says(env.config_path, place) ==> locator.config_path@ == place,
        says(env.calibration_dir, place) ==> locator.calibration_dir@ == place,
        says(env.data_dir, place) ==> locator.data_dir@ == place,
        says(env.log_dir, place) ==> opt_view(locator.log_dir_override) == Some(place),
        says_nothing(env.log_dir) && says(env.recordings_dir, place) ==> opt_view(
            locator.log_dir_override,
        ) == Some(place),
        says_nothing(env.log_dir) && says_nothing(env.recordings_dir) ==> locator.log_dir_override
            is None,
        says_nothing(env.config_path) && says(env.config_dir, place) ==> locator.config_path@
            == joined(place, "config.json"@),
{
}

/// Where nothing else is named, everything lies where the configuration does: in the working
/// directory, or else with the program, or else with the project.
pub proof fn law_everything_lies_with_the_configuration(
    env: ResourceEnvironment,
    locator: ResourceLocator,
    dir: Seq<char>,
    last: Seq<char>,
)
    requires
        leads_to(env, locator),
        says_nothing(env.config_path),
        says_nothing(env.config_dir),
        says_nothing(env.calibration_dir),
        says_nothing(env.data_dir),
        says_nothing(env.log_dir),
        says_nothing(env.recordings_dir),
        paths::is_on_drive(dir),
        paths::is_plain_name(last),
        opt_view(env.working_dir) == Some(joined(dir, last)) || (env.working_dir is None && opt_view(
            env.exe_dir,
        ) == Some(joined(dir, last))) || (env.working_dir is None && env.exe_dir is None
            && env.project_root@ == joined(dir, last)),
    ensures
        locator.config_path@ == joined(joined(dir, last), "config.json"@),
        locator.data_dir@ == joined(dir, last),
        locator.calibration_dir@ == joined(joined(dir, last), "calibration"@),
        log_root(locator, None) == joined(joined(dir, last), "log"@),
{
    reveal_strlit("config.json");
    let name = "config.json"@;
    paths::lemma_plain_name(name);
    paths::law_joining_is_undone_by_the_parent(dir, last, name);
    paths::law_joined_name_is_the_last(dir, last);
}

/// Of the places where a file can lie the first counts at which there is one; where there is none
/// at all, the first.
pub proof fn law_the_first_place_counts(candidates: Seq<Seq<char>>, existing: Seq<bool>, n: int)
    requires
        candidates.len() == existing.len(),
        0 <= n < existing.len(),
        forall|k: int| 0 <= k < n ==> !existing[k],
    ensures
        existing[n] ==> first_existing(candidates, existing) == candidates[n],
        (forall|k: int| 0 <= k < existing.len() ==> !existing[k]) ==> first_existing(
            candidates,
            existing,
        ) == candidates[0],
{
    assert(existing.take(existing.len() as int) =~= existing);
    if existing[n] {
        lemma_first_set(existing, n);
    }
    if forall|k: int| 0 <= k < existing.len() ==> !existing[k] {
        lemma_none_set(existing);
    }
}

proof fn lemma_directory_names()
    ensures
        paths::is_plain_name("icons"@),
        paths::is_plain_name("_internal"@),
        paths::is_plain_name("ruler"@),
        paths::is_plain_name("locales"@),
{
    reveal_strlit("icons");
    reveal_strlit("_internal");
    reveal_strlit("ruler");
    reveal_strlit("locales");
    paths::lemma_plain_name("icons"@);
    paths::lemma_plain_name("_internal"@);
    paths::lemma_plain_name("ruler"@);
    paths::lemma_plain_name("locales"@);
}

/// An icon lies under its name wherever it lies: with the project first, then with the program.
pub proof fn law_icons_lie_under_their_names(locator: ResourceLocator, name: Seq<char>)
    requires
        paths::is_plain_name(name),
        paths::is_on_drive(locator.project_root@),
        paths::is_on_drive(exe_root(locator)),
    ensures
        icon_places(locator, name)[0] == joined(joined(locator.project_root@, "icons"@), name),
        icon_places(locator, name)[1] == joined(joined(exe_root(locator), "icons"@), name),
        forall|i: int|
            0 <= i < icon_places(locator, name).len() ==> paths::name_of(
                #[trigger] icon_places(locator, name)[i],
            ) == Some(name),
{
    lemma_directory_names();
    reveal_with_fuel(joined_all, 4);
    let root = locator.project_root@;
    let exe = exe_root(locator);
    let two = seq!["icons"@, name];
    assert(two.drop_last() =~= seq!["icons"@]);
    assert(seq!["icons"@].drop_last() =~= Seq::<Seq<char>>::empty());
    let three = seq!["_internal"@, "icons"@, name];
    assert(three.drop_last() =~= seq!["_internal"@, "icons"@]);
    assert(seq!["_internal"@, "icons"@].drop_last() =~= seq!["_internal"@]);
    assert(seq!["_internal"@].drop_last() =~= Seq::<Seq<char>>::empty());
    paths::law_joined_name_is_the_last(root, "icons"@);
    paths::law_joined_name_is_the_last(joined(root, "icons"@), name);
    paths::law_joined_name_is_the_last(exe, "icons"@);
    paths::law_joined_name_is_the_last(joined(exe, "icons"@), name);
    paths::law_joined_name_is_the_last(exe, "_internal"@);
    paths::law_joined_name_is_the_last(joined(exe, "_internal"@), "icons"@);
    paths::law_joined_name_is_the_last(joined(joined(exe, "_internal"@), "icons"@), name);
}

/// The texts of a locale lie in a file of its name, with the project first, then with the program.
pub proof fn law_locales_lie_under_their_names(locator: ResourceLocator, locale: Seq<char>)
    requires
        paths::is_plain_name(locale + ".json"@),
        paths::is_on_drive(locator.project_root@),
        paths::is_on_drive(exe_root(locator)),
    ensures
        locale_places(locator, locale)[0] == joined(
            joined(joined(locator.project_root@, "ruler"@), "locales"@),
            locale + ".json"@,
        ),
        locale_places(locator, locale)[2] == joined(
            joined(exe_root(locator), "locales"@),
            locale + ".json"@,
        ),
        paths::name_of(locale_places(locator, locale)[0]) == Some(locale + ".json"@),
        paths::name_of(locale_places(locator, locale)[2]) == Some(locale + ".json"@),
{
    lemma_directory_names();
    reveal_with_fuel(joined_all, 4);
    let name = locale + ".json"@;
    let root = locator.project_root@;
    let exe = exe_root(locator);
    let two = seq!["locales"@, name];
    assert(two.drop_last() =~= seq!["locales"@]);
    assert(seq!["locales"@].drop_last() =~= Seq::<Seq<char>>::empty());
    let three = seq!["ruler"@, "locales"@, name];
    assert(three.drop_last() =~= seq!["ruler"@, "locales"@]);
    assert(seq!["ruler"@, "locales"@].drop_last() =~= seq!["ruler"@]);
    assert(seq!["ruler"@].drop_last() =~= Seq::<Seq<char>>::empty());
    paths::law_joined_name_is_the_last(root, "ruler"@);
    paths::law_joined_name_is_the_last(joined(root, "ruler"@), "locales"@);
    paths::law_joined_name_is_the_last(joined(joined(root, "ruler"@), "locales"@), name);
    paths::law_joined_name_is_the_last(exe, "locales"@);
    paths::law_joined_name_is_the_last(joined(exe, "locales"@), name);
}

/// Logs go where the configuration says, seen from the data directory, white space around it left
/// away; where it says nothing, where the environment says; else into a directory of the data.
pub proof fn law_logs_go_where_they_are_sent(locator: ResourceLocator, configured: Seq<char>)
    ensures
        trimmed(configured).len() > 0 ==> log_root(locator, Some(configured)) == joined(
            locator.data_dir@,
            trimmed(configured),
        ),
        trimmed(configured).len() == 0 ==> log_root(locator, Some(configured)) == log_root(
            locator,
            None,
        ),
        locator.log_dir_override matches Some(dir) ==> log_root(locator, None) == dir@,
        locator.log_dir_override is None ==> log_root(locator, None) == joined(
            locator.data_dir@,
            "log"@,
        ),
{
}

} // verus!
