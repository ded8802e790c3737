//! Counts of a session, and what is reported of them.
use crate::config::RulerConfig;
use crate::json;
use crate::json::string_text;
use crate::number::Real64;
use crate::paths;
use crate::paths::joined;
use crate::telemetry::identity::{is_random_uuid, new_uuid, normalized, normalized_uuid};
use crate::text;
use crate::text::{
    decimal, ends_with, in_order, lemma_order_total, lemma_order_transitive, lines_of, opt_view,
    starts_with,
};
use crate::ui_state::PACKAGE_VERSION;
use vstd::prelude::*;

pub mod identity;

verus! {

/// What the running session has counted so far.
#[derive(Debug)]
pub struct RunTelemetryStats {
    pub analyzed_frames: u64,
    pub action_restarts: u64,
}

impl Default for RunTelemetryStats {
    fn default() -> (stats: Self)
        ensures
            stats.analyzed_frames == 0,
            stats.action_restarts == 0,
    {
        RunTelemetryStats { analyzed_frames: 0, action_restarts: 0 }
    }
}

/// What a session leaves behind for the next one to report.
#[derive(Clone, Copy, Debug, PartialEq, Eq, Structural)]
pub struct SessionTelemetryStats {
    pub total_frames: u64,
    pub restarts: u64,
}

impl Default for SessionTelemetryStats {
    fn default() -> (stats: Self)
        ensures
            stats == (SessionTelemetryStats { total_frames: 0, restarts: 0 }),
    {
        SessionTelemetryStats { total_frames: 0, restarts: 0 }
    }
}

impl RunTelemetryStats {
    pub fn record_analyzed_frame(&mut self)
        ensures
            *final(self) == (RunTelemetryStats {
                analyzed_frames: old(self).analyzed_frames.wrapping_add(1),
                ..*old(self)
            }),
    {
        self.analyzed_frames = self.analyzed_frames.wrapping_add(1);
    }

    pub fn record_action_restart(&mut self)
        ensures
            *final(self) == (RunTelemetryStats {
                action_restarts: old(self).action_restarts.wrapping_add(1),
                ..*old(self)
            }),
    {
        self.action_restarts = self.action_restarts.wrapping_add(1);
    }

    pub fn snapshot(&self) -> (stats: SessionTelemetryStats)
        ensures
            stats.total_frames == self.analyzed_frames,
            stats.restarts == self.action_restarts,
    {
        SessionTelemetryStats {
            total_frames: self.analyzed_frames,
            restarts: self.action_restarts,
        }
    }
}

pub const TELEMETRY_HOST: &'static str = "arkruler-telemetry.z060606060606.online";

pub const TELEMETRY_STATS_FILE: &'static str = "telemetry_stats.json";

/// How long the server may take for each step, in seconds.
pub const IO_TIMEOUT_SECS: u64 = 3;

/// Sees to it that the configuration has a name to report under.
pub fn ensure_config_uuid(config: &mut RulerConfig)
    ensures
        *final(config) == (RulerConfig { uuid: final(config).uuid, ..*old(config) }),
        normalized(opt_view(old(config).uuid)) is Some ==> final(config).uuid == old(config).uuid,
        normalized(opt_view(old(config).uuid)) is None ==> final(config).uuid is Some
            && is_random_uuid(final(config).uuid->0@),
{
    if normalized_uuid(&config.uuid).is_none() {
        config.uuid = Some(new_uuid());
    }
}

/// The file of a session's counts, and what it holds.
pub open spec fn stats_text(stats: SessionTelemetryStats) -> Seq<char> {
    "{\n  \"total_frames\": "@ + decimal(stats.total_frames as nat) + ",\n  \"restarts\": "@ + decimal(
        stats.restarts as nat,
    ) + "\n}"@
}

pub fn session_stats_path(session_dir: &str) -> (path: String)
    ensures
        path@ == joined(session_dir@, TELEMETRY_STATS_FILE@),
{
    paths::join(session_dir, TELEMETRY_STATS_FILE)
}

pub fn write_session_stats(stats: &RunTelemetryStats) -> (contents: String)
    ensures
        contents@ == stats_text(
            (SessionTelemetryStats {
                total_frames: stats.analyzed_frames,
                restarts: stats.action_restarts,
            }),
        ),
{
    let stats = stats.snapshot();
    let mut contents = "{\n  \"total_frames\": ".to_owned();
    text::push_decimal(&mut contents, stats.total_frames);
    contents.append(",\n  \"restarts\": ");
    text::push_decimal(&mut contents, stats.restarts);
    contents.append("\n}");
    contents
}

/// Something in the directory of sessions.
pub struct SessionEntry {
    pub name: String,
    pub is_dir: bool,
    /// It holds a file of counts.
    pub has_stats: bool,
}

/// An earlier session that left its counts.
pub open spec fn is_previous(entry: SessionEntry, current: Seq<char>) -> bool {
    entry.is_dir && entry.has_stats && entry.name@ != current
}

/// The entry with the greatest name among those that left counts.
pub open spec fn latest(entries: Seq<SessionEntry>, current: Seq<char>) -> Option<Seq<char>>
    decreases entries.len(),
{
    if entries.len() == 0 {
        None
    } else {
        let before = latest(entries.drop_last(), current);
        let entry = entries.last();
        if !is_previous(entry, current) {
            before
        } else {
            match before {
                Some(name) => if in_order(name, entry.name@) {
                    Some(entry.name@)
                } else {
                    Some(name)
                },
                None => Some(entry.name@),
            }
        }
    }
}

/// The name of the latest session before the current one that left its counts.
pub fn latest_previous_session(entries: &Vec<SessionEntry>, current: &str) -> (name: Option<String>)
    ensures
        opt_view(name) == latest(entries@, current@),
{
    let mut best: Option<String> = None;
    let mut i: usize = 0;
    assert(entries@.take(0) =~= Seq::<SessionEntry>::empty());
    while i < entries.len()
        invariant
            i <= entries@.len(),
            opt_view(best) == latest(entries@.take(i as int), current@),
        decreases entries@.len() - i,
    {
        let entry = &entries[i];
        assert(entries@.take(i as int + 1).drop_last() =~= entries@.take(i as int));
        if entry.is_dir && entry.has_stats && !text::same(&entry.name, current) {
            best = match best {
                Some(name) => if text::ordered(&name, &entry.name) {
                    Some(entry.name.clone())
                } else {
                    Some(name)
                },
                None => Some(entry.name.clone()),
            };
        }
        i += 1;
    }
    assert(entries@.take(i as int) =~= entries@);
    best
}

/// What is reported when capturing starts.
#[derive(Debug)]
pub struct StartupTelemetryPayload {
    pub uuid: String,
    pub client_type: String,
    pub version: String,
    pub resolution: String,
    /// `None` stands for zero.
    pub screenshot_delay: Option<Real64>,
    pub total_frames: u64,
    pub restarts: u64,
}

/// Reports are allowed, and there is a name to report under.
pub open spec fn reports(config: RulerConfig) -> bool {
    config.telemetry_enabled == Some(true) && normalized(opt_view(config.uuid)) is Some
}

/// The report of a configuration, on pictures of this size, after a session with those counts.
pub open spec fn is_report(
    config: RulerConfig,
    size: (u32, u32),
    previous: Option<SessionTelemetryStats>,
    payload: StartupTelemetryPayload,
) -> bool {
    &&& payload.uuid@ == normalized(opt_view(config.uuid))->0
    &&& payload.client_type@ == config.capture_type@
    &&& payload.version@ == PACKAGE_VERSION@
    &&& payload.resolution@ == decimal(size.0 as nat) + seq!['x'] + decimal(size.1 as nat)
    &&& payload.screenshot_delay == config.screenshot_delay_ms
    &&& payload.total_frames == (match previous {
        Some(stats) => stats.total_frames,
        None => 0,
    })
    &&& payload.restarts == (match previous {
        Some(stats) => stats.restarts,
        None => 0,
    })
}

/// What to report when capturing pictures of this size starts, where the user allows it.
pub fn startup_payload(
    config: &RulerConfig,
    width: u32,
    height: u32,
    previous: Option<SessionTelemetryStats>,
) -> (payload: Option<StartupTelemetryPayload>)
    ensures
        payload is Some <==> reports(*config),
        payload matches Some(payload) ==> is_report(*config, (width, height), previous, payload),
{
    match config.telemetry_enabled {
        Some(true) => {},
        _ => {
            return None;
        },
    }
    match normalized_uuid(&config.uuid) {
        Some(uuid) => {
            let previous = match previous {
                Some(stats) => stats,
                None => SessionTelemetryStats { total_frames: 0, restarts: 0 },
            };
            let mut resolution = text::decimal_of(width as u64);
            resolution.push('x');
            text::push_decimal(&mut resolution, height as u64);
            assert(resolution@ =~= decimal(width as nat) + seq!['x'] + decimal(height as nat));
            Some(
                StartupTelemetryPayload {
                    uuid,
                    client_type: config.capture_type.clone(),
                    version: PACKAGE_VERSION.to_owned(),
                    resolution,
                    screenshot_delay: config.screenshot_delay_ms,
                    total_frames: previous.total_frames,
                    restarts: previous.restarts,
                },
            )
        },
        None => None,
    }
}

/// A report as JSON; how its delay is written is given.
pub open spec fn payload_text(payload: StartupTelemetryPayload, delay_text: Seq<char>) -> Seq<char> {
    json::object_text(payload_members(payload, delay_text))
}

/// What a report tells, each thing under its name.
pub open spec fn payload_members(
    payload: StartupTelemetryPayload,
    delay_text: Seq<char>,
) -> Seq<(Seq<char>, Seq<char>)> {
    seq![
        ("uuid"@, string_text(payload.uuid@)),
        ("client_type"@, string_text(payload.client_type@)),
        ("version"@, string_text(payload.version@)),
        ("resolution"@, string_text(payload.resolution@)),
        ("screenshot_delay"@, delay_text),
        ("total_frames"@, decimal(payload.total_frames as nat)),
        ("restarts"@, decimal(payload.restarts as nat)),
    ]
}

impl StartupTelemetryPayload {
    /// The report as JSON. `delay_text` is the delay as JSON writes it.
    pub fn to_json(&self, delay_text: &str) -> (body: String)
        ensures
            body@ == payload_text(*self, delay_text@),
    {
        let members: Vec<(&'static str, String)> = vec![
            ("uuid", json::write_string(&self.uuid)),
            ("client_type", json::write_string(&self.client_type)),
            ("version", json::write_string(&self.version)),
            ("resolution", json::write_string(&self.resolution)),
            ("screenshot_delay", delay_text.to_owned()),
            ("total_frames", text::decimal_of(self.total_frames)),
            ("restarts", text::decimal_of(self.restarts)),
        ];
        proof {
            assert(json::member_views(members@) =~= seq![
                ("uuid"@, string_text(self.uuid@)),
                ("client_type"@, string_text(self.client_type@)),
                ("version"@, string_text(self.version@)),
                ("resolution"@, string_text(self.resolution@)),
                ("screenshot_delay"@, delay_text@),
                ("total_frames"@, decimal(self.total_frames as nat)),
                ("restarts"@, decimal(self.restarts as nat)),
            ]);
        }
        json::write_object(&members)
    }
}

/// The head of the request that carries a report of this length.
pub open spec fn request_head(length: int) -> Seq<char> {
    "POST / HTTP/1.1\r\nHost: "@ + TELEMETRY_HOST@
        + "\r\nUser-Agent: arknights-cost-bar-ruler/"@ + PACKAGE_VERSION@
        + "\r\nContent-Type: application/json\r\nContent-Length: "@ + decimal(length as nat)
        + "\r\nConnection: close\r\n\r\n"@
}

/// The head of the request that carries a report.
pub fn build_http_request(body: &[u8]) -> (head: String)
    ensures
        head@ == request_head(body@.len() as int),
{
    let mut head = "POST / HTTP/1.1\r\nHost: ".to_owned();
    head.append(TELEMETRY_HOST);
    head.append("\r\nUser-Agent: arknights-cost-bar-ruler/");
    head.append(PACKAGE_VERSION);
    head.append("\r\nContent-Type: application/json\r\nContent-Length: ");
    text::push_decimal(&mut head, body.len() as u64);
    head.append("\r\nConnection: close\r\n\r\n");
    head
}

/// The server took the report.
pub open spec fn is_accepted(reply: Seq<char>) -> bool {
    starts_with(reply, "HTTP/1.1 2"@) || starts_with(reply, "HTTP/1.0 2"@)
}

/// What is said of a reply that refuses a report.
pub open spec fn refusal_text(reply: Seq<char>) -> Seq<char> {
    "telemetry endpoint returned "@ + (if lines_of(reply).len() > 0 {
        lines_of(reply)[0]
    } else {
        "<empty response>"@
    })
}

/// Whether the server took the report, by the start of its reply.
pub fn check_reply(reply: &str) -> (r: Result<(), String>)
    ensures
        match r {
            Ok(_) => is_accepted(reply@),
            Err(message) => !is_accepted(reply@) && message@ == refusal_text(reply@),
        },
{
    if text::has_prefix(reply, "HTTP/1.1 2") || text::has_prefix(reply, "HTTP/1.0 2") {
        return Ok(());
    }
    let lines = text::lines(reply);
    assert(text::views(lines@).len() == lines@.len());
    let mut message = "telemetry endpoint returned ".to_owned();
    if lines.len() > 0 {
        assert(text::views(lines@)[0] == lines@[0]@);
        message.append(&lines[0]);
    } else {
        message.append("<empty response>");
    }
    Err(message)
}

/// The session whose counts are reported is an earlier one, and none of the others is later.
pub proof fn law_latest_previous_session(entries: Seq<SessionEntry>, current: Seq<char>)
    ensures
        latest(entries, current) is None <==> forall|i: int|
            0 <= i < entries.len() ==> !is_previous(#[trigger] entries[i], current),
        latest(entries, current) matches Some(name) ==> {
            &&& exists|i: int|
                0 <= i < entries.len() && is_previous(#[trigger] entries[i], current)
                    && entries[i].name@ == name
            &&& forall|i: int|
                0 <= i < entries.len() && is_previous(#[trigger] entries[i], current) ==> in_order(
                    entries[i].name@,
                    name,
                )
        },
    decreases entries.len(),
{
    if entries.len() > 0 {
        let front = entries.drop_last();
        let last = entries.last();
        law_latest_previous_session(front, current);
        assert forall|i: int| 0 <= i < front.len() implies front[i] == #[trigger] entries[i] by {}
        if is_previous(last, current) {
            assert(entries[entries.len() - 1] == last);
            lemma_order_total(last.name@, last.name@);
            if let Some(name) = latest(front, current) {
                lemma_order_total(name, last.name@);
                let k = choose|k: int|
                    0 <= k < front.len() && is_previous(#[trigger] front[k], current)
                        && front[k].name@ == name;
                assert(entries[k] == front[k]);
                assert forall|i: int|
                    0 <= i < entries.len() && is_previous(#[trigger] entries[i], current) implies in_order(
                    entries[i].name@,
                    latest(entries, current)->0,
                ) by {
                    if i < front.len() {
                        assert(front[i] == entries[i]);
                        if in_order(name, last.name@) {
                            lemma_order_transitive(entries[i].name@, name, last.name@);
                        }
                    }
                }
            }
        } else if let Some(name) = latest(front, current) {
            let k = choose|k: int|
                0 <= k < front.len() && is_previous(#[trigger] front[k], current)
                    && front[k].name@ == name;
            assert(entries[k] == front[k]);
        }
    }
}

/// Nothing is reported without the user's consent.
pub proof fn law_nothing_is_reported_without_consent(config: RulerConfig)
    requires
        config.telemetry_enabled != Some(true),
    ensures
        !reports(config),
{
}

/// A report has one member of each name, and each tells what its name says of the configuration,
/// the pictures and the session before: the counts of that session, or zero where there was none.
pub proof fn law_report_tells_what_its_names_say(
    config: RulerConfig,
    size: (u32, u32),
    previous: SessionTelemetryStats,
    payload: StartupTelemetryPayload,
    first: StartupTelemetryPayload,
    delay_text: Seq<char>,
)
    requires
        reports(config),
        is_report(config, size, Some(previous), payload),
        is_report(config, size, None, first),
    ensures
        ({
            let members = payload_members(payload, delay_text);
            &&& members.len() == 7
            &&& members.contains(("uuid"@, string_text(text::trimmed(opt_view(config.uuid)->0))))
            &&& members.contains(("client_type"@, string_text(config.capture_type@)))
            &&& members.contains(("version"@, string_text(PACKAGE_VERSION@)))
            &&& members.contains(
                (
                    "resolution"@,
                    string_text(decimal(size.0 as nat) + seq!['x'] + decimal(size.1 as nat)),
                ),
            )
            &&& members.contains(("screenshot_delay"@, delay_text))
            &&& members.contains(("total_frames"@, decimal(previous.total_frames as nat)))
            &&& members.contains(("restarts"@, decimal(previous.restarts as nat)))
        }),
        payload_members(first, delay_text).contains(("total_frames"@, decimal(0))),
        payload_members(first, delay_text).contains(("restarts"@, decimal(0))),
        payload.screenshot_delay == config.screenshot_delay_ms,
{
    let members = payload_members(payload, delay_text);
    assert(members[0].0 == "uuid"@);
    assert(members[1].0 == "client_type"@);
    assert(members[2].0 == "version"@);
    assert(members[3].0 == "resolution"@);
    assert(members[4].0 == "screenshot_delay"@);
    assert(members[5].0 == "total_frames"@);
    assert(members[6].0 == "restarts"@);
    let others = payload_members(first, delay_text);
    assert(others[5].0 == "total_frames"@);
    assert(others[6].0 == "restarts"@);
}

/// The file of a session's counts names both, each before its number.
pub proof fn law_counts_stand_behind_their_names(stats: SessionTelemetryStats)
    ensures
        starts_with(
            stats_text(stats),
            "{\n  \"total_frames\": "@ + decimal(stats.total_frames as nat),
        ),
        ends_with(
            stats_text(stats),
            "\"restarts\": "@ + decimal(stats.restarts as nat) + "\n}"@,
        ),
{
    reveal_strlit("{\n  \"total_frames\": ");
    reveal_strlit(",\n  \"restarts\": ");
    reveal_strlit("\"restarts\": ");
    reveal_strlit("\n}");
    let whole = stats_text(stats);
    let front = "{\n  \"total_frames\": "@ + decimal(stats.total_frames as nat);
    assert(whole.take(front.len() as int) =~= front);
    let back = "\"restarts\": "@ + decimal(stats.restarts as nat) + "\n}"@;
    assert(",\n  \"restarts\": "@ =~= ",\n  "@ + "\"restarts\": "@) by {
        reveal_strlit(",\n  ");
    }
    assert(whole.skip(whole.len() - back.len()) =~= back);
}

/// A reply is taken for an acceptance by its status alone: whatever follows the first digit of the
/// status does not matter, and a status of another class is a refusal.
pub proof fn law_replies_are_judged_by_their_status(rest: Seq<char>, digit: char)
    ensures
        is_accepted("HTTP/1.1 "@ + seq![digit] + rest) == (digit == '2'),
        is_accepted("HTTP/1.0 "@ + seq![digit] + rest) == (digit == '2'),
{
    reveal_strlit("HTTP/1.1 ");
    reveal_strlit("HTTP/1.0 ");
    reveal_strlit("HTTP/1.1 2");
    reveal_strlit("HTTP/1.0 2");
    let new = "HTTP/1.1 "@ + seq![digit] + rest;
    let old_one = "HTTP/1.0 "@ + seq![digit] + rest;
    assert(new.take(10)[9] == digit && new.take(10)[7] == '1');
    assert(old_one.take(10)[9] == digit && old_one.take(10)[7] == '0');
    assert("HTTP/1.1 2"@[9] == '2' && "HTTP/1.0 2"@[9] == '2');
    assert("HTTP/1.1 2"@[7] == '1' && "HTTP/1.0 2"@[7] == '0');
    if digit == '2' {
        assert(new.take(10) =~= "HTTP/1.1 2"@);
        assert(old_one.take(10) =~= "HTTP/1.0 2"@);
    }
}

} // verus!
