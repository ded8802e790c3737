//! The log of a session: where it goes, what it holds and how long it is kept.
use crate::calendar;
use crate::calendar::{date_of, is_timestamp, timestamp_text};
use crate::config::RulerConfig;
use crate::paths;
use crate::paths::joined;
use crate::resources::{log_root, ResourceLocator};
use crate::text;
use crate::text::{decimal, in_order, padded, same_but_case, split_on, trimmed, views};
use vstd::prelude::*;

verus! {

/// The log target of a library whose warnings are of no use.
pub const ICU_PROVIDER_ERROR_LOG_TARGET: &'static str = "icu_provider::error";

/// Sessions are kept for seven days.
pub const RETENTION_SECS: u64 = 604_800;

/// How serious an entry is.
#[derive(Clone, Copy, Debug, PartialEq, Eq, Structural)]
pub enum Level {
    Error,
    Warn,
    Info,
    Debug,
    Trace,
}

/// Down to which level entries are written.
#[derive(Clone, Copy, Debug, PartialEq, Eq, Structural)]
pub enum LevelFilter {
    Off,
    Error,
    Warn,
    Info,
    Debug,
    Trace,
}

pub open spec fn rank(filter: LevelFilter) -> int {
    match filter {
        LevelFilter::Off => 0,
        LevelFilter::Error => 1,
        LevelFilter::Warn => 2,
        LevelFilter::Info => 3,
        LevelFilter::Debug => 4,
        LevelFilter::Trace => 5,
    }
}

pub open spec fn depth(level: Level) -> int {
    match level {
        Level::Error => 1,
        Level::Warn => 2,
        Level::Info => 3,
        Level::Debug => 4,
        Level::Trace => 5,
    }
}

fn level_to_usize(filter: LevelFilter) -> (n: usize)
    ensures
        n == rank(filter),
{
    match filter {
        LevelFilter::Off => 0,
        LevelFilter::Error => 1,
        LevelFilter::Warn => 2,
        LevelFilter::Info => 3,
        LevelFilter::Debug => 4,
        LevelFilter::Trace => 5,
    }
}

fn level_depth(level: Level) -> (n: usize)
    ensures
        n == depth(level),
{
    match level {
        Level::Error => 1,
        Level::Warn => 2,
        Level::Info => 3,
        Level::Debug => 4,
        Level::Trace => 5,
    }
}

/// The name of a level.
pub open spec fn level_name(level: Level) -> Seq<char> {
    match level {
        Level::Error => "ERROR"@,
        Level::Warn => "WARN"@,
        Level::Info => "INFO"@,
        Level::Debug => "DEBUG"@,
        Level::Trace => "TRACE"@,
    }
}

/// The filter with this name, in letters of either case.
pub open spec fn filter_named(name: Seq<char>) -> Option<LevelFilter> {
    if same_but_case("OFF"@, name) {
        Some(LevelFilter::Off)
    } else if same_but_case("ERROR"@, name) {
        Some(LevelFilter::Error)
    } else if same_but_case("WARN"@, name) {
        Some(LevelFilter::Warn)
    } else if same_but_case("INFO"@, name) {
        Some(LevelFilter::Info)
    } else if same_but_case("DEBUG"@, name) {
        Some(LevelFilter::Debug)
    } else if same_but_case("TRACE"@, name) {
        Some(LevelFilter::Trace)
    } else {
        None
    }
}

/// Reads the name of a filter with `<log::LevelFilter as FromStr>::from_str`. It is taken on
/// trust that this accepts the six names in letters of either ASCII case, gives the filter of
/// that name, and accepts nothing else.
#[verifier::external_body]
fn parse_filter(name: &str) -> (filter: Option<LevelFilter>)
    ensures
        filter == filter_named(name@),
{
    match name.parse::<log::LevelFilter>() {
        Ok(log::LevelFilter::Off) => Some(LevelFilter::Off),
        Ok(log::LevelFilter::Error) => Some(LevelFilter::Error),
        Ok(log::LevelFilter::Warn) => Some(LevelFilter::Warn),
        Ok(log::LevelFilter::Info) => Some(LevelFilter::Info),
        Ok(log::LevelFilter::Debug) => Some(LevelFilter::Debug),
        Ok(log::LevelFilter::Trace) => Some(LevelFilter::Trace),
        Err(_) => None,
    }
}

/// What a segment of the override asks for: the filter behind its last `=`, or the segment itself.
pub open spec fn filter_of_segment(segment: Seq<char>) -> Option<LevelFilter> {
    filter_named(trimmed(split_on(segment, '=').last()))
}

/// The most verbose filter that the segments ask for.
pub open spec fn most_verbose(segments: Seq<Seq<char>>) -> Option<LevelFilter>
    decreases segments.len(),
{
    if segments.len() == 0 {
        None
    } else {
        let before = most_verbose(segments.drop_last());
        match (before, filter_of_segment(segments.last())) {
            (Some(a), Some(b)) => if rank(b) >= rank(a) {
                Some(b)
            } else {
                Some(a)
            },
            (None, Some(b)) => Some(b),
            (_, None) => before,
        }
    }
}

/// The most verbose filter in a list of segments that are separated by commas.
pub fn parse_override_level(raw: &str) -> (level: Option<LevelFilter>)
    ensures
        level == most_verbose(split_on(raw@, ',')),
{
    let segments = text::split(raw, ',');
    let ghost all = split_on(raw@, ',');
    let mut level: Option<LevelFilter> = None;
    let mut i: usize = 0;
    assert(all.take(0) =~= Seq::<Seq<char>>::empty());
    while i < segments.len()
        invariant
            i <= segments@.len(),
            all == views(segments@),
            level == most_verbose(all.take(i as int)),
        decreases segments@.len() - i,
    {
        proof {
            assert(all.take(i as int + 1).drop_last() =~= all.take(i as int));
            assert(all.take(i as int + 1).last() == segments@[i as int]@);
            text::lemma_split_len(segments@[i as int]@, '=');
        }
        let parts = text::split(&segments[i], '=');
        assert(views(parts@).len() == parts@.len());
        assert(views(parts@).last() == parts@.last()@);
        let found = parse_filter(&text::trim(&parts[parts.len() - 1]));
        if let Some(b) = found {
            level = match level {
                Some(a) => if level_to_usize(b) >= level_to_usize(a) {
                    Some(b)
                } else {
                    Some(a)
                },
                None => Some(b),
            };
        }
        i += 1;
    }
    assert(all.take(i as int) =~= all);
    level
}

/// An entry is written: its level is within the threshold, and it is no chatter.
pub open spec fn is_written(target: Seq<char>, level: Level, threshold: LevelFilter) -> bool {
    depth(level) <= rank(threshold) && (target == ICU_PROVIDER_ERROR_LOG_TARGET@ ==> level
        == Level::Error)
}

/// Whether an entry is written.
pub fn should_log(target: &str, level: Level, threshold: LevelFilter) -> (b: bool)
    ensures
        b == is_written(target@, level, threshold),
{
    if text::same(target, ICU_PROVIDER_ERROR_LOG_TARGET) && level_depth(level) > 1 {
        return false;
    }
    level_depth(level) <= level_to_usize(threshold)
}

/// `s`, filled up with spaces on the right to `width` characters.
pub open spec fn in_columns(s: Seq<char>, width: nat) -> Seq<char> {
    s + Seq::new(
        (if s.len() < width {
            width - s.len()
        } else {
            0
        }) as nat,
        |i: int| ' ',
    )
}

/// An entry as a line: the time, the level in five columns, the target and the message.
pub open spec fn line_text(
    unix_secs: int,
    millis: int,
    level: Level,
    target: Seq<char>,
    message: Seq<char>,
) -> Seq<char> {
    timestamp_text(unix_secs) + seq!['.'] + padded(millis as nat, 3) + seq![' '] + in_columns(
        level_name(level),
        5,
    ) + " ["@ + target + "] "@ + message + seq!['\n']
}

pub fn format_log_line(
    unix_secs: u64,
    millis: u32,
    level: Level,
    target: &str,
    message: &str,
) -> (line: String)
    ensures
        line@ == line_text(unix_secs as int, millis as int, level, target@, message@),
{
    let mut line = calendar::timestamp_with_millis(unix_secs, millis);
    line.push(' ');
    line.append(
        match level {
            Level::Error => "ERROR",
            Level::Warn => "WARN ",
            Level::Info => "INFO ",
            Level::Debug => "DEBUG",
            Level::Trace => "TRACE",
        },
    );
    proof {
        reveal_strlit("ERROR");
        reveal_strlit("WARN");
        reveal_strlit("WARN ");
        reveal_strlit("INFO");
        reveal_strlit("INFO ");
        reveal_strlit("DEBUG");
        reveal_strlit("TRACE");
        assert(in_columns("ERROR"@, 5) =~= "ERROR"@);
        assert(in_columns("WARN"@, 5) =~= "WARN "@);
        assert(in_columns("INFO"@, 5) =~= "INFO "@);
        assert(in_columns("DEBUG"@, 5) =~= "DEBUG"@);
        assert(in_columns("TRACE"@, 5) =~= "TRACE"@);
    }
    line.append(" [");
    line.append(target);
    line.append("] ");
    line.append(message);
    line.push('\n');
    assert(line@ =~= line_text(unix_secs as int, millis as int, level, target@, message@));
    line
}

/// The name of the directory of a session.
pub open spec fn session_name(unix_secs: int, pid: int) -> Seq<char> {
    timestamp_text(unix_secs) + seq!['_'] + decimal(pid as nat)
}

pub fn session_dir_name(now_secs: u64, pid: u32) -> (name: String)
    ensures
        name@ == session_name(now_secs as int, pid as int),
{
    let mut name = calendar::timestamp_prefix(now_secs);
    name.push('_');
    text::push_decimal(&mut name, pid as u64);
    assert(name@ =~= session_name(now_secs as int, pid as int));
    name
}

/// The timestamp that a directory's name starts with.
pub open spec fn timestamp_in(name: Seq<char>) -> Option<Seq<char>> {
    if name.len() >= 15 && is_timestamp(name.take(15)) {
        Some(name.take(15))
    } else {
        None
    }
}

pub fn session_timestamp_prefix(name: &str) -> (prefix: Option<String>)
    ensures
        text::opt_view(prefix) == timestamp_in(name@),
{
    let chars = text::to_chars(name);
    if chars.len() < 15 {
        return None;
    }
    proof {
        assert(name@.take(15).take(8) =~= chars@.subrange(0, 8));
        assert(name@.take(15).skip(9) =~= chars@.subrange(9, 15));
        assert(name@.take(15) =~= chars@.subrange(0, 15));
    }
    if chars[8] == '_' && text::all_digit_chars(&chars, 0, 8) && text::all_digit_chars(
        &chars,
        9,
        15,
    ) {
        Some(text::from_char_range(&chars, 0, 15))
    } else {
        None
    }
}

/// Something in the log directory.
pub struct LogEntry {
    pub name: String,
    pub is_dir: bool,
}

/// The point in time before which sessions are too old.
pub open spec fn cutoff(now_secs: int) -> int {
    if now_secs < RETENTION_SECS {
        0
    } else {
        now_secs - RETENTION_SECS
    }
}

/// A directory of that name is a session that is too old.
pub open spec fn is_expired(name: Seq<char>, now_secs: int) -> bool {
    match timestamp_in(name) {
        Some(prefix) => !in_order(timestamp_text(cutoff(now_secs)), prefix),
        None => false,
    }
}

/// The entries to remove: directories of sessions that are too old, but never the current one.
pub open spec fn expired(entries: Seq<LogEntry>, now_secs: int, current: Seq<char>) -> Seq<
    Seq<char>,
>
    decreases entries.len(),
{
    if entries.len() == 0 {
        Seq::empty()
    } else {
        let before = expired(entries.drop_last(), now_secs, current);
        let entry = entries.last();
        if entry.is_dir && entry.name@ != current && is_expired(entry.name@, now_secs) {
            before.push(entry.name@)
        } else {
            before
        }
    }
}

/// The names of the entries to remove, where the session of the name `current` runs.
pub fn expired_sessions(entries: &Vec<LogEntry>, now_secs: u64, current: &str) -> (names: Vec<
    String,
>)
    ensures
        views(names@) == expired(entries@, now_secs as int, current@),
{
    let oldest: u64 = if now_secs < RETENTION_SECS {
        0
    } else {
        now_secs - RETENTION_SECS
    };
    let limit = calendar::timestamp_prefix(oldest);
    let mut names: Vec<String> = Vec::new();
    let mut i: usize = 0;
    assert(entries@.take(0) =~= Seq::<LogEntry>::empty());
    assert(views(names@) =~= Seq::<Seq<char>>::empty());
    while i < entries.len()
        invariant
            i <= entries@.len(),
            limit@ == timestamp_text(cutoff(now_secs as int)),
            views(names@) == expired(entries@.take(i as int), now_secs as int, current@),
        decreases entries@.len() - i,
    {
        let ghost before = views(names@);
        let entry = &entries[i];
        assert(entries@.take(i as int + 1).drop_last() =~= entries@.take(i as int));
        if entry.is_dir && !text::same(&entry.name, current) {
            if let Some(prefix) = session_timestamp_prefix(&entry.name) {
                if !text::ordered(&limit, &prefix) {
                    let name = entry.name.clone();
                    let ghost added = name@;
                    names.push(name);
                    assert(views(names@) =~= before.push(added));
                }
            }
        }
        i += 1;
    }
    assert(entries@.take(i as int) =~= entries@);
    names
}

/// The log of the running session.
#[derive(Debug)]
pub struct LoggingRuntime {
    pub session_dir: String,
    pub override_level: Option<LevelFilter>,
    pub effective_level: LevelFilter,
}

/// The filter in force.
pub open spec fn filter_in_force(
    override_level: Option<LevelFilter>,
    trace_enabled: bool,
) -> LevelFilter {
    match override_level {
        Some(level) => level,
        None => if trace_enabled {
            LevelFilter::Trace
        } else {
            LevelFilter::Info
        },
    }
}

pub open spec fn asked_for(rust_log: Option<&str>) -> Option<LevelFilter> {
    match rust_log {
        Some(raw) => most_verbose(split_on(raw@, ',')),
        None => None,
    }
}

pub open spec fn configured_dir(config: Option<&RulerConfig>) -> Option<Seq<char>> {
    match config {
        Some(config) => text::opt_view(config.log_output_dir),
        None => None,
    }
}

pub open spec fn wants_trace(config: Option<&RulerConfig>) -> bool {
    match config {
        Some(config) => config.trace_logging_enabled,
        None => false,
    }
}

/// The directory that holds the sessions.
pub fn log_root_of(resources: &ResourceLocator, config: Option<&RulerConfig>) -> (root: String)
    ensures
        root@ == log_root(*resources, configured_dir(config)),
{
    match config {
        Some(config) => match &config.log_output_dir {
            Some(dir) => resources.log_root_dir(Some(dir.as_str())),
            None => resources.log_root_dir(None),
        },
        None => resources.log_root_dir(None),
    }
}

/// The log of a session that started at that time as that process.
pub open spec fn is_log_of(
    resources: ResourceLocator,
    config: Option<&RulerConfig>,
    rust_log: Option<&str>,
    session: (u64, u32),
    runtime: LoggingRuntime,
) -> bool {
    &&& runtime.session_dir@ == joined(
        log_root(resources, configured_dir(config)),
        session_name(session.0 as int, session.1 as int),
    )
    &&& runtime.override_level == asked_for(rust_log)
    &&& runtime.effective_level == filter_in_force(asked_for(rust_log), wants_trace(config))
}

impl LoggingRuntime {
    /// The log of a session that starts now: below the log directory that the configuration
    /// names, at the level that `rust_log` or else the configuration asks for.
    pub fn init(
        resources: &ResourceLocator,
        config: Option<&RulerConfig>,
        rust_log: Option<&str>,
        now_secs: u64,
        pid: u32,
    ) -> (runtime: Self)
        ensures
            is_log_of(*resources, config, rust_log, (now_secs, pid), runtime),
    {
        let override_level = match rust_log {
            Some(raw) => parse_override_level(raw),
            None => None,
        };
        let trace_enabled = match config {
            Some(config) => config.trace_logging_enabled,
            None => false,
        };
        let root = log_root_of(resources, config);
        let mut runtime = LoggingRuntime {
            session_dir: paths::join(&root, &session_dir_name(now_secs, pid)),
            override_level,
            effective_level: LevelFilter::Info,
        };
        runtime.apply_trace_setting(trace_enabled);
        runtime
    }

    #[must_use]
    pub fn session_dir(&self) -> (dir: String)
        ensures
            dir@ == self.session_dir@,
    {
        self.session_dir.clone()
    }

    /// The file that entries are written to.
    pub fn log_file(&self) -> (path: String)
        ensures
            path@ == joined(self.session_dir@, "app.log"@),
    {
        paths::join(&self.session_dir, "app.log")
    }

    pub fn apply_trace_setting(&mut self, trace_enabled: bool)
        ensures
            *final(self) == (LoggingRuntime {
                effective_level: filter_in_force(old(self).override_level, trace_enabled),
                ..*old(self)
            }),
    {
        self.effective_level = match self.override_level {
            Some(level) => level,
            None => if trace_enabled {
                LevelFilter::Trace
            } else {
                LevelFilter::Info
            },
        };
    }

    /// Whether an entry is written at the level in force.
    pub fn enabled(&self, target: &str, level: Level) -> (b: bool)
        ensures
            b == is_written(target@, level, self.effective_level),
    {
        should_log(target, level, self.effective_level)
    }
}

/// Up to the year 9999, a session is too old exactly if it started more than seven days ago.
pub proof fn law_sessions_expire_after_seven_days(started: int, now_secs: int, pid: int)
    requires
        0 <= started,
        0 <= now_secs,
        0 <= pid,
        date_of(started / 86_400).year <= 9999,
        date_of(cutoff(now_secs) / 86_400).year <= 9999,
    ensures
        is_expired(session_name(started, pid), now_secs) <==> started < cutoff(now_secs),
{
    calendar::law_timestamp_shape(started);
    calendar::law_timestamps_sort_by_time(cutoff(now_secs), started);
    assert(session_name(started, pid).take(15) =~= timestamp_text(started));
}

/// Nothing but directories that look like sessions is ever removed, and the running session never.
pub proof fn law_only_old_sessions_are_removed(
    entries: Seq<LogEntry>,
    now_secs: int,
    current: Seq<char>,
)
    ensures
        forall|i: int|
            0 <= i < expired(entries, now_secs, current).len() ==> {
                let name = #[trigger] expired(entries, now_secs, current)[i];
                name != current && timestamp_in(name) is Some && is_expired(name, now_secs)
            },
    decreases entries.len(),
{
    if entries.len() > 0 {
        law_only_old_sessions_are_removed(entries.drop_last(), now_secs, current);
    }
}

/// A level that a more restrictive filter lets through is let through by a more verbose one.
pub proof fn law_verbose_filters_keep_more(
    target: Seq<char>,
    level: Level,
    a: LevelFilter,
    b: LevelFilter,
)
    requires
        rank(a) <= rank(b),
        is_written(target, level, a),
    ensures
        is_written(target, level, b),
{
}

/// An override decides whatever the configuration says.
pub proof fn law_override_decides(level: LevelFilter, a: bool, b: bool)
    ensures
        filter_in_force(Some(level), a) == filter_in_force(Some(level), b),
{
}

/// Each filter lets its own level and those that are more serious through, and nothing below; one
/// that is off lets nothing through.
pub proof fn law_filters_have_their_levels(target: Seq<char>)
    requires
        target != ICU_PROVIDER_ERROR_LOG_TARGET@,
    ensures
        forall|level: Level| !#[trigger] is_written(target, level, LevelFilter::Off),
        forall|level: Level| #[trigger] is_written(target, level, LevelFilter::Trace),
        forall|level: Level| #[trigger]
            is_written(target, level, LevelFilter::Error) <==> level == Level::Error,
        forall|level: Level| #[trigger]
            is_written(target, level, LevelFilter::Warn) <==> level == Level::Error || level
                == Level::Warn,
        forall|level: Level| #[trigger]
            is_written(target, level, LevelFilter::Info) <==> level != Level::Debug && level
                != Level::Trace,
        forall|level: Level| #[trigger]
            is_written(target, level, LevelFilter::Debug) <==> level != Level::Trace,
{
}

/// Of the chatter only errors are ever written, and those as any others.
pub proof fn law_chatter_is_not_written(level: Level, threshold: LevelFilter, other: Seq<char>)
    requires
        other != ICU_PROVIDER_ERROR_LOG_TARGET@,
    ensures
        level != Level::Error ==> !is_written(ICU_PROVIDER_ERROR_LOG_TARGET@, level, threshold),
        is_written(ICU_PROVIDER_ERROR_LOG_TARGET@, Level::Error, threshold) == is_written(
            other,
            Level::Error,
            threshold,
        ),
{
}

/// The filter of a list is one that a segment asks for, and no segment asks for a more verbose one;
/// there is none only where no segment names one.
pub proof fn law_the_most_verbose_filter_counts(segments: Seq<Seq<char>>)
    ensures
        most_verbose(segments) is None <==> forall|i: int|
            0 <= i < segments.len() ==> filter_of_segment(#[trigger] segments[i]) is None,
        most_verbose(segments) matches Some(filter) ==> {
            &&& exists|i: int|
                0 <= i < segments.len() && filter_of_segment(#[trigger] segments[i]) == Some(filter)
            &&& forall|i: int|
                0 <= i < segments.len() ==> (filter_of_segment(#[trigger] segments[i]) matches Some(
                    other,
                ) ==> rank(other) <= rank(filter))
        },
    decreases segments.len(),
{
    if segments.len() > 0 {
        let front = segments.drop_last();
        let last = segments.len() - 1;
        law_the_most_verbose_filter_counts(front);
        assert(segments.last() == segments[last]);
        assert forall|i: int| 0 <= i < front.len() implies front[i] == #[trigger] segments[i] by {}
        if let Some(filter) = most_verbose(front) {
            let k = choose|k: int|
                0 <= k < front.len() && filter_of_segment(#[trigger] front[k]) == Some(filter);
            assert(filter_of_segment(segments[k]) == Some(filter));
        }
    }
}

/// A filter is asked for by its name alone or behind an equals sign: what stands before that does
/// not matter.
pub proof fn law_the_target_of_a_segment_does_not_matter(a: Seq<char>, b: Seq<char>)
    requires
        split_on(a, '=').last() == split_on(b, '=').last(),
    ensures
        filter_of_segment(a) == filter_of_segment(b),
        filter_of_segment(a) == filter_named(trimmed(split_on(b, '=').last())),
{
}

/// An override is the filter in force; without one it is everything where the log is to be
/// detailed, and else all but what is for looking for errors.
pub proof fn law_filter_in_force(level: LevelFilter, target: Seq<char>)
    requires
        target != ICU_PROVIDER_ERROR_LOG_TARGET@,
    ensures
        forall|trace: bool| #[trigger] filter_in_force(Some(level), trace) == level,
        forall|entry: Level| #[trigger] is_written(target, entry, filter_in_force(None, true)),
        forall|entry: Level| #[trigger]
            is_written(target, entry, filter_in_force(None, false)) <==> entry != Level::Debug
                && entry != Level::Trace,
{
}

/// Exactly the directories of sessions that are too old are removed, but for the running one.
pub proof fn law_every_old_session_is_removed(
    entries: Seq<LogEntry>,
    now_secs: int,
    current: Seq<char>,
    i: int,
)
    requires
        0 <= i < entries.len(),
        entries[i].is_dir,
        entries[i].name@ != current,
        is_expired(entries[i].name@, now_secs),
    ensures
        expired(entries, now_secs, current).contains(entries[i].name@),
    decreases entries.len(),
{
    let front = entries.drop_last();
    let before = expired(front, now_secs, current);
    let all = expired(entries, now_secs, current);
    if i == entries.len() - 1 {
        assert(all.last() == entries[i].name@);
    } else {
        law_every_old_session_is_removed(front, now_secs, current, i);
        assert(front[i] == entries[i]);
        let k = choose|k: int| 0 <= k < before.len() && before[k] == entries[i].name@;
        assert(all[k] == entries[i].name@);
    }
}

/// What is removed is there, as a directory.
pub proof fn law_removed_sessions_are_directories(
    entries: Seq<LogEntry>,
    now_secs: int,
    current: Seq<char>,
)
    ensures
        expired(entries, now_secs, current).len() <= entries.len(),
        forall|k: int|
            0 <= k < expired(entries, now_secs, current).len() ==> exists|i: int|
                0 <= i < entries.len() && (#[trigger] entries[i]).is_dir && entries[i].name@
                    == #[trigger] expired(entries, now_secs, current)[k],
    decreases entries.len(),
{
    if entries.len() > 0 {
        let front = entries.drop_last();
        let before = expired(front, now_secs, current);
        let all = expired(entries, now_secs, current);
        law_removed_sessions_are_directories(front, now_secs, current);
        assert forall|k: int| 0 <= k < all.len() implies exists|i: int|
            0 <= i < entries.len() && (#[trigger] entries[i]).is_dir && entries[i].name@
                == #[trigger] all[k] by {
            if k < before.len() {
                assert(all[k] == before[k]);
                let i = choose|i: int|
                    0 <= i < front.len() && (#[trigger] front[i]).is_dir && front[i].name@
                        == before[k];
                assert(entries[i] == front[i]);
            } else {
                assert(entries[entries.len() - 1] == entries.last());
            }
        }
    }
}

/// A line starts with the time, names the level and the target, and ends with the message.
pub proof fn law_lines_tell_their_entry(
    unix_secs: int,
    millis: int,
    level: Level,
    target: Seq<char>,
    message: Seq<char>,
)
    ensures
        ({
            let line = line_text(unix_secs, millis, level, target, message);
            let time = timestamp_text(unix_secs) + "."@ + padded(millis as nat, 3);
            &&& text::starts_with(line, time + " "@ + level_name(level))
            &&& text::ends_with(line, " ["@ + target + "] "@ + message + "\n"@)
        }),
        level == Level::Error ==> level_name(level) == "ERROR"@,
        level == Level::Warn ==> level_name(level) == "WARN"@,
        level == Level::Info ==> level_name(level) == "INFO"@,
        level == Level::Debug ==> level_name(level) == "DEBUG"@,
        level == Level::Trace ==> level_name(level) == "TRACE"@,
{
    reveal_strlit(".");
    reveal_strlit(" ");
    reveal_strlit("\n");
    assert("."@ =~= seq!['.']);
    assert(" "@ =~= seq![' ']);
    assert("\n"@ =~= seq!['\n']);
    let line = line_text(unix_secs, millis, level, target, message);
    let front = timestamp_text(unix_secs) + "."@ + padded(millis as nat, 3) + " "@ + level_name(
        level,
    );
    let back = " ["@ + target + "] "@ + message + "\n"@;
    assert(line.take(front.len() as int) =~= front);
    assert(line.skip(line.len() - back.len()) =~= back);
}

/// A session has a directory of its own name below the directory of logs, and its log is as detailed
/// as the configuration says where nothing else is asked for.
pub proof fn law_sessions_have_their_directories(
    resources: ResourceLocator,
    config: Option<&RulerConfig>,
    rust_log: Option<&str>,
    session: (u64, u32),
    runtime: LoggingRuntime,
)
    requires
        is_log_of(resources, config, rust_log, session, runtime),
        paths::is_on_drive(log_root(resources, configured_dir(config))),
        date_of(session.0 as int / 86_400).year <= 9999,
    ensures
        paths::name_of(runtime.session_dir@) == Some(
            session_name(session.0 as int, session.1 as int),
        ),
        text::starts_with(
            runtime.session_dir@,
            log_root(resources, configured_dir(config)),
        ),
        rust_log is None ==> (config matches Some(config) ==> (runtime.effective_level
            == LevelFilter::Trace <==> config.trace_logging_enabled)),
        rust_log is None && config is None ==> runtime.effective_level == LevelFilter::Info,
        runtime.override_level matches Some(level) ==> runtime.effective_level == level,
{
    let name = session_name(session.0 as int, session.1 as int);
    let stamp = timestamp_text(session.0 as int);
    calendar::law_timestamp_shape(session.0 as int);
    text::law_written_numbers_read_back(session.1 as nat, u32::MAX as int);
    let digits = decimal(session.1 as nat);
    assert(name.take(15) =~= stamp);
    assert forall|i: int| 0 <= i < name.len() implies !paths::is_separator(#[trigger] name[i])
        && name[i] != ':' by {
        if i < 15 {
            assert(name[i] == stamp[i]);
            if i < 8 {
                assert(stamp.take(8)[i] == stamp[i]);
            } else if i > 8 {
                assert(stamp.skip(9)[i - 9] == stamp[i]);
            }
        } else if i > 15 {
            assert(name[i] == digits[i - 16]);
        }
    }
    assert(name[1] != ':');
    paths::lemma_plain_name(name);
    let root = log_root(resources, configured_dir(config));
    paths::law_joined_name_is_the_last(root, name);
    paths::law_names_are_put_behind(root, name);
}

} // verus!
