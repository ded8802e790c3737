//! How connections to the API are told apart, served and kept up to date.
use crate::api::protocol::understood_text;
use crate::api::response;
use crate::api::response::{answers_message, error_text, ClientStep};
use crate::commands::UiCommand;
use crate::json::JsonItem;
use crate::text;
use crate::text::{decimal, lowered};
use crate::worker::SharedAppState;
use std::collections::VecDeque;
use vstd::prelude::*;

verus! {

#[derive(Clone, Copy, Debug, PartialEq, Eq, Structural)]
pub enum ConnectionKind {
    WebSocket,
    HttpSnapshot,
}

/// The bytes from `start` up to `end` are a line: between line feeds or the ends, without one.
pub open spec fn is_line(bytes: Seq<u8>, start: int, end: int) -> bool {
    &&& 0 <= start <= end <= bytes.len()
    &&& start == 0 || bytes[start - 1] == 10
    &&& end == bytes.len() || bytes[end] == 10
    &&& forall|k: int| start <= k < end ==> bytes[k] != 10
}

/// What a line says: a carriage return before its line feed does not belong to it.
pub open spec fn line_text(bytes: Seq<u8>, start: int, end: int) -> Seq<char> {
    let stop = if end < bytes.len() && start < end && bytes[end - 1] == 13 {
        end - 1
    } else {
        end
    };
    bytes.subrange(start, stop).map_values(|b: u8| b as char)
}

/// One of the lines asks for a WebSocket, in whatever case.
pub open spec fn asks_for_websocket(bytes: Seq<u8>) -> bool {
    exists|start: int, end: int| #[trigger]
        is_line(bytes, start, end) && lowered(line_text(bytes, start, end))
            == "upgrade: websocket"@
}

fn is_upgrade_line(bytes: &Vec<u8>, start: usize, end: usize) -> (b: bool)
    requires
        start <= end <= bytes@.len(),
    ensures
        b == (lowered(line_text(bytes@, start as int, end as int)) == "upgrade: websocket"@),
{
    let stop: usize = if end < bytes.len() && start < end && bytes[end - 1] == 13 {
        end - 1
    } else {
        end
    };
    let ghost line = line_text(bytes@, start as int, end as int);
    let want = text::to_chars("upgrade: websocket");
    if stop - start != want.len() {
        return false;
    }
    let mut i: usize = 0;
    while i < want.len()
        invariant
            i <= want@.len(),
            want@ == "upgrade: websocket"@,
            line == line_text(bytes@, start as int, end as int),
            line == bytes@.subrange(start as int, stop as int).map_values(|b: u8| b as char),
            start <= stop <= bytes@.len(),
            stop - start == want@.len(),
            forall|k: int| 0 <= k < i ==> lowered(line)[k] == want@[k],
        decreases want@.len() - i,
    {
        assert(lowered(line)[i as int] == text::lower(bytes@[start + i] as char));
        if text::ascii_lower(bytes[start + i] as char) != want[i] {
            return false;
        }
        i += 1;
    }
    assert(lowered(line) =~= want@);
    true
}

/// What kind of connection the first bytes of a client announce.
pub fn classify_connection(bytes: &Vec<u8>) -> (kind: ConnectionKind)
    ensures
        kind == if asks_for_websocket(bytes@) {
            ConnectionKind::WebSocket
        } else {
            ConnectionKind::HttpSnapshot
        },
{
    let mut start: usize = 0;
    let mut i: usize = 0;
    while i < bytes.len()
        invariant
            start <= i <= bytes@.len(),
            start == 0 || bytes@[start - 1] == 10,
            forall|k: int| start <= k < i ==> bytes@[k] != 10,
            forall|s: int, e: int|
                e < i && #[trigger] is_line(bytes@, s, e) ==> lowered(line_text(bytes@, s, e))
                    != "upgrade: websocket"@,
        decreases bytes@.len() - i,
    {
        if bytes[i] == 10 {
            assert(is_line(bytes@, start as int, i as int));
            if is_upgrade_line(bytes, start, i) {
                return ConnectionKind::WebSocket;
            }
            assert forall|s: int, e: int| e < i + 1 && #[trigger] is_line(
                bytes@,
                s,
                e,
            ) implies lowered(line_text(bytes@, s, e)) != "upgrade: websocket"@ by {
                if e == i {
                    lemma_line_start(bytes@, start as int, s, e);
                }
            }
            start = i + 1;
        } else {
            assert forall|s: int, e: int| e < i + 1 && #[trigger] is_line(
                bytes@,
                s,
                e,
            ) implies lowered(line_text(bytes@, s, e)) != "upgrade: websocket"@ by {
                assert(e != i);
            }
        }
        i += 1;
    }
    assert(is_line(bytes@, start as int, i as int));
    if is_upgrade_line(bytes, start, i) {
        ConnectionKind::WebSocket
    } else {
        assert forall|s: int, e: int| #[trigger] is_line(bytes@, s, e) implies lowered(
            line_text(bytes@, s, e),
        ) != "upgrade: websocket"@ by {
            if e == i {
                lemma_line_start(bytes@, start as int, s, e);
            }
        }
        ConnectionKind::HttpSnapshot
    }
}

/// Two lines with the same end are the same.
proof fn lemma_line_start(bytes: Seq<u8>, a: int, b: int, end: int)
    requires
        is_line(bytes, a, end),
        is_line(bytes, b, end),
    ensures
        a == b,
{
    if a < b {
        assert(bytes[b - 1] == 10);
    }
    if b < a {
        assert(bytes[a - 1] == 10);
    }
}

/// The head of an HTTP answer with a body of `length` bytes.
pub open spec fn http_head(length: nat) -> Seq<char> {
    "HTTP/1.1 200 OK\r\nContent-Type: application/json\r\nCache-Control: no-store\r\nAccess-Control-Allow-Origin: *\r\nContent-Length: "@
        + decimal(length) + "\r\nConnection: close\r\n\r\n"@
}

/// The head of the HTTP answer that `body` follows: it announces exactly the bytes of the body.
pub fn http_response_head(body: &str) -> (head: String)
    ensures
        head@ == http_head(vstd::utf8::encode_utf8(body@).len()),
{
    let mut head =
        "HTTP/1.1 200 OK\r\nContent-Type: application/json\r\nCache-Control: no-store\r\nAccess-Control-Allow-Origin: *\r\nContent-Length: ".to_owned();
    text::push_decimal(&mut head, body.as_bytes().len() as u64);
    head.append("\r\nConnection: close\r\n\r\n");
    head
}

/// The payloads that were sent, with `payload` as the last of them.
pub open spec fn remembered(recent: Seq<String>, limit: usize, payload: String) -> Seq<String> {
    if recent.len() == limit && limit > 0 {
        recent.drop_first().push(payload)
    } else {
        recent.push(payload)
    }
}

/// The payload is not the one that was sent last.
pub open spec fn is_news(recent: Seq<String>, payload: Seq<char>) -> bool {
    !(recent.len() > 0 && recent.last()@ == payload)
}

/// Keeps `payload` as the last of the payloads that were sent, no more than `limit` in all.
pub fn remember_payload(recent_payloads: &mut VecDeque<String>, limit: usize, payload: String)
    ensures
        final(recent_payloads)@ == remembered(old(recent_payloads)@, limit, payload),
{
    if recent_payloads.len() == limit {
        let _ = recent_payloads.pop_front();
        assert(limit > 0 ==> recent_payloads@ =~= old(recent_payloads)@.drop_first());
    }
    recent_payloads.push_back(payload);
}

/// Whether `payload` has to be sent to everyone: it is not the one that was sent last.
pub fn should_broadcast(recent_payloads: &VecDeque<String>, payload: &str) -> (b: bool)
    ensures
        b == is_news(recent_payloads@, payload@),
{
    let n: usize = recent_payloads.len();
    if n == 0 {
        true
    } else {
        !text::same(&recent_payloads[n - 1], payload)
    }
}

/// As long as payloads are only remembered, no more than the limit are kept.
pub proof fn law_no_more_payloads_than_the_limit(recent: Seq<String>, limit: usize, payload: String)
    requires
        0 < limit,
        recent.len() <= limit,
    ensures
        remembered(recent, limit, payload).len() <= limit,
        remembered(recent, limit, payload).last() == payload,
        recent.len() < limit ==> remembered(recent, limit, payload).drop_last() == recent,
        recent.len() == limit ==> remembered(recent, limit, payload).drop_last()
            == recent.drop_first(),
{
    assert(recent.push(payload).drop_last() =~= recent);
    if recent.len() > 0 {
        assert(recent.drop_first().push(payload).drop_last() =~= recent.drop_first());
    }
}

/// What was sent last is not sent again, and anything else is: clients hear of every change once.
pub proof fn law_only_changes_are_sent(
    recent: Seq<String>,
    limit: usize,
    payload: String,
    next: Seq<char>,
)
    ensures
        is_news(Seq::empty(), next),
        is_news(remembered(recent, limit, payload), next) <==> next != payload@,
{
}

/// A request whose head has a line that asks for a WebSocket, in whatever case and at whatever place,
/// is one for a WebSocket.
pub proof fn law_upgrade_line_asks_for_a_websocket(head: Seq<u8>, line: Seq<u8>, rest: Seq<u8>)
    requires
        head.len() == 0 || head.last() == 10,
        lowered(line.map_values(|b: u8| b as char)) == "upgrade: websocket"@,
        forall|k: int| 0 <= k < line.len() ==> line[k] != 10,
    ensures
        asks_for_websocket(head + line + seq![13u8, 10u8] + rest),
        line.last() != 13 ==> asks_for_websocket(head + line),
{
    reveal_strlit("upgrade: websocket");
    let chars = line.map_values(|b: u8| b as char);
    assert(lowered(chars).len() == 18);
    let start = head.len() as int;
    let end = start + line.len();
    let all = head + line + seq![13u8, 10u8] + rest;
    assert forall|k: int| start <= k < end + 1 implies all[k] != 10 by {
        if k < end {
            assert(all[k] == line[k - start]);
        }
    }
    if start > 0 {
        assert(all[start - 1] == head[start - 1]);
    }
    assert(all[end] == 13 && all[end + 1] == 10);
    assert(is_line(all, start, end + 1));
    assert(line_text(all, start, end + 1) =~= chars);
    let short = head + line;
    assert forall|k: int| start <= k < end implies short[k] != 10 by {
        assert(short[k] == line[k - start]);
    }
    if start > 0 {
        assert(short[start - 1] == head[start - 1]);
    }
    assert(is_line(short, start, end));
    assert(line_text(short, start, end) =~= chars);
}

/// What reading from a WebSocket client brings.
#[derive(Debug)]
pub enum ClientEvent {
    Text(String),
    Binary,
    Close,
    Ping(Vec<u8>),
    Other,
    /// Nothing to read for now.
    WouldBlock,
    /// The connection has ended or cannot be read.
    Failed,
}

/// What follows from it.
#[derive(Debug)]
pub enum ClientOutcome {
    /// Send an answer and go on reading; drop the client where that fails.
    Reply(String),
    /// Hand a command to the worker and send the answer to it.
    Send { command: UiCommand, request_id: Option<JsonItem>, action: &'static str },
    /// Send the same bytes back and go on reading; drop the client where that fails.
    Pong(Vec<u8>),
    /// Go on reading.
    Continue,
    /// Stop reading; the client stays.
    Keep,
    /// Stop reading; the client goes.
    Drop,
}

/// `outcome` is what follows from `event`, and `after` the state since.
pub open spec fn follows_from(
    before: SharedAppState,
    after: SharedAppState,
    event: ClientEvent,
    outcome: ClientOutcome,
) -> bool {
    &&& !(event is Text) ==> after == before
    &&& match event {
        ClientEvent::Text(text) => match outcome {
            ClientOutcome::Reply(json) => answers_message(
                before,
                after,
                understood_text(text@),
                ClientStep::Reply(json),
            ),
            ClientOutcome::Send { command, request_id, action } => answers_message(
                before,
                after,
                understood_text(text@),
                ClientStep::Send { command, request_id, action },
            ),
            _ => false,
        },
        ClientEvent::Binary => outcome matches ClientOutcome::Reply(json) && json@ == error_text(
            None,
            "invalid_message"@,
            "websocket requests must be UTF-8 JSON text"@,
        ),
        ClientEvent::Close => outcome is Drop,
        ClientEvent::Ping(bytes) => outcome == ClientOutcome::Pong(bytes),
        ClientEvent::Other => outcome is Continue,
        ClientEvent::WouldBlock => outcome is Keep,
        ClientEvent::Failed => outcome is Drop,
    }
}

/// What follows from one thing that a client sent.
pub fn client_event(state: &mut SharedAppState, event: ClientEvent) -> (outcome: ClientOutcome)
    ensures
        follows_from(*old(state), *final(state), event, outcome),
{
    match event {
        ClientEvent::Text(text) => match response::handle_client_text(state, &text) {
            ClientStep::Reply(json) => ClientOutcome::Reply(json),
            ClientStep::Send { command, request_id, action } => ClientOutcome::Send {
                command,
                request_id,
                action,
            },
        },
        ClientEvent::Binary => ClientOutcome::Reply(
            response::error_response(
                &None,
                "invalid_message",
                "websocket requests must be UTF-8 JSON text",
            ),
        ),
        ClientEvent::Close => ClientOutcome::Drop,
        ClientEvent::Ping(bytes) => ClientOutcome::Pong(bytes),
        ClientEvent::Other => ClientOutcome::Continue,
        ClientEvent::WouldBlock => ClientOutcome::Keep,
        ClientEvent::Failed => ClientOutcome::Drop,
    }
}

/// A client stays for as long as it can be read: it goes when it closes or fails, and stays where
/// there is nothing to read for now. Every text is answered, a ping comes back as it was sent, and
/// nothing but a text changes what is shared.
pub proof fn law_clients_stay_until_they_close(
    before: SharedAppState,
    after: SharedAppState,
    event: ClientEvent,
    outcome: ClientOutcome,
)
    requires
        follows_from(before, after, event, outcome),
    ensures
        outcome is Drop <==> event is Close || event is Failed,
        outcome is Keep <==> event is WouldBlock,
        event is Text ==> outcome is Reply || outcome is Send,
        event is Binary ==> outcome is Reply,
        event matches ClientEvent::Ping(bytes) ==> outcome matches ClientOutcome::Pong(sent)
            && sent@ == bytes@,
        !(event is Text) ==> after == before,
        after.inner == before.inner,
        after.api_history == before.api_history,
{
    match (event, outcome) {
        (ClientEvent::Text(text), ClientOutcome::Reply(json)) => {
            response::law_questions_change_nothing(
                before,
                after,
                understood_text(text@),
                ClientStep::Reply(json),
            );
        },
        (ClientEvent::Text(text), ClientOutcome::Send { command, request_id, action }) => {
            response::law_questions_change_nothing(
                before,
                after,
                understood_text(text@),
                ClientStep::Send { command, request_id, action },
            );
        },
        _ => {},
    }
}

/// The head of an HTTP answer says how long its body is and that nothing follows it, and two bodies
/// of different lengths have different heads.
pub proof fn law_heads_announce_their_body(length: nat, other: nat)
    ensures
        http_head(length) == http_head(other) ==> length == other,
        text::contains_text(http_head(length), decimal(length)),
{
    let start =
        "HTTP/1.1 200 OK\r\nContent-Type: application/json\r\nCache-Control: no-store\r\nAccess-Control-Allow-Origin: *\r\nContent-Length: "@;
    let end = "\r\nConnection: close\r\n\r\n"@;
    let digits = decimal(length);
    let n = start.len() as int;
    assert(http_head(length).subrange(n, n + digits.len()) =~= digits);
    assert(text::stands_at(http_head(length), digits, n));
    if http_head(length) == http_head(other) {
        let others = decimal(other);
        assert(http_head(length).len() == n + digits.len() + end.len());
        assert(http_head(other).len() == n + others.len() + end.len());
        assert(http_head(other).subrange(n, n + others.len()) =~= others);
        text::law_written_numbers_read_back(length, length as int);
        assert(decimal(other) == decimal(length));
    }
}

} // verus!
