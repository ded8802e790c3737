//! What clients are answered.
use crate::api::payload;
use crate::api::payload::{
    frame_json, frame_members, frame_payload, members_tell_record, members_tell_snapshot,
    payload_json, payload_members, tells, ApiFramePayload, ApiPayload,
};
use crate::api::protocol::{
    agrees, opt_item, parse_client_request, understood_text, wish, ClientAction, ClientRequest,
    RequestError, Understood, Wish,
};
use crate::commands::UiCommand;
use crate::json;
use crate::json::{
    bool_text, item_text, member_views, members_text, opt_string_text, string_text, ItemView,
    JsonItem, MemberOrder,
};
use crate::text;
use crate::text::decimal;
use crate::ui_state::{ApiFrameLookup, ApiFrameRecord};
use crate::worker::{
    bounds_of, fallback_reason, in_capture_order, record_at_or_before, SharedAppState,
};
use vstd::prelude::*;

verus! {

/// What follows from a client's message: an answer, or a command for the worker with the answer
/// still to come.
#[derive(Debug)]
pub enum ClientStep {
    Reply(String),
    Send { command: UiCommand, request_id: Option<JsonItem>, action: &'static str },
}

/// The members that every answer has: what it is, and the request it answers.
pub open spec fn head(kind: Seq<char>, request_id: Option<ItemView>) -> Seq<
    (Seq<char>, Seq<char>),
> {
    match request_id {
        Some(id) => seq![("type"@, string_text(kind)), ("requestId"@, item_text(id))],
        None => seq![("type"@, string_text(kind))],
    }
}

/// An answer with these members, in the order of their names.
pub open spec fn answer_json(members: Seq<(Seq<char>, Seq<char>)>) -> Seq<char> {
    members_text(MemberOrder::ByName, members)
}

pub open spec fn ack_text(request_id: Option<ItemView>, action: Seq<char>) -> Seq<char> {
    answer_json(head("ack"@, request_id) + seq![("action"@, string_text(action))])
}

pub open spec fn error_text(
    request_id: Option<ItemView>,
    code: Seq<char>,
    message: Seq<char>,
) -> Seq<char> {
    answer_json(
        head("error"@, request_id) + seq![
            ("code"@, string_text(code)),
            ("message"@, string_text(message)),
        ],
    )
}

pub open spec fn payload_text(request_id: Option<ItemView>, payload: ApiPayload) -> Seq<char> {
    answer_json(
        head("snapshot"@, request_id) + seq![("payload"@, payload_json(payload, MemberOrder::ByName))],
    )
}

/// `json` is the snapshot of `state`.
pub open spec fn is_snapshot(json: Seq<char>, state: SharedAppState) -> bool {
    exists|payload: ApiPayload| #[trigger]
        tells(payload, state.inner, bounds_of(state.api_history@)) && json == payload_json(
            payload,
            MemberOrder::AsGiven,
        )
}

/// `json` answers a request for the snapshot of `state`.
pub open spec fn is_snapshot_answer(
    json: Seq<char>,
    request_id: Option<ItemView>,
    state: SharedAppState,
) -> bool {
    exists|payload: ApiPayload| #[trigger]
        tells(payload, state.inner, bounds_of(state.api_history@)) && json == payload_text(
            request_id,
            payload,
        )
}

/// The answer to a request for a frame: the frame, and whether and why it is another one; or that
/// there is none.
pub open spec fn frame_text(
    request_id: Option<ItemView>,
    history: Seq<ApiFrameRecord>,
    frame_id: u64,
) -> Seq<char> {
    match record_at_or_before(history, frame_id) {
        Some(record) => answer_json(
            head("frame"@, request_id) + seq![
                ("requestedFrameId"@, decimal(frame_id as nat)),
                ("actualFrameId"@, decimal(record.frame_id as nat)),
                ("fellBack"@, bool_text(record.frame_id != frame_id)),
                (
                    "fallbackReason"@,
                    opt_string_text(
                        if record.frame_id != frame_id {
                            Some(fallback_reason(history, frame_id))
                        } else {
                            None
                        },
                    ),
                ),
                ("frame"@, frame_json(frame_payload(record), MemberOrder::ByName)),
            ],
        ),
        None => error_text(
            request_id,
            "frame_not_retained"@,
            "no analyzed frame retained at or before frameId "@ + decimal(frame_id as nat),
        ),
    }
}

fn push_head(
    members: &mut Vec<(&'static str, String)>,
    kind: &'static str,
    request_id: &Option<JsonItem>,
)
    requires
        old(members)@.len() == 0,
    ensures
        member_views(final(members)@) == head(kind@, opt_item(*request_id)),
{
    members.push(("type", json::write_string(kind)));
    if let Some(id) = request_id {
        members.push(("requestId", json::write_item(id)));
    }
    assert(member_views(members@) =~= head(kind@, opt_item(*request_id)));
}

fn ack_response(request_id: &Option<JsonItem>, action: &'static str) -> (json: String)
    ensures
        json@ == ack_text(opt_item(*request_id), action@),
{
    let mut members: Vec<(&'static str, String)> = Vec::new();
    push_head(&mut members, "ack", request_id);
    let ghost start = member_views(members@);
    members.push(("action", json::write_string(action)));
    assert(member_views(members@) =~= start + seq![("action"@, string_text(action@))]);
    json::write_members(MemberOrder::ByName, &members)
}

pub fn error_response(request_id: &Option<JsonItem>, code: &'static str, message: &str) -> (json:
    String)
    ensures
        json@ == error_text(opt_item(*request_id), code@, message@),
{
    let mut members: Vec<(&'static str, String)> = Vec::new();
    push_head(&mut members, "error", request_id);
    let ghost start = member_views(members@);
    members.push(("code", json::write_string(code)));
    members.push(("message", json::write_string(message)));
    assert(member_views(members@) =~= start + seq![
        ("code"@, string_text(code@)),
        ("message"@, string_text(message@)),
    ]);
    json::write_members(MemberOrder::ByName, &members)
}

/// The snapshot of the current state as JSON.
pub fn snapshot_json(state: &SharedAppState) -> (json: String)
    ensures
        is_snapshot(json@, *state),
{
    let payload = ApiPayload::from_snapshot(&state.inner, state.api_history_bounds());
    payload.to_json(MemberOrder::AsGiven)
}

fn snapshot_response(request_id: &Option<JsonItem>, state: &SharedAppState) -> (json: String)
    ensures
        is_snapshot_answer(json@, opt_item(*request_id), *state),
{
    let payload = ApiPayload::from_snapshot(&state.inner, state.api_history_bounds());
    let mut members: Vec<(&'static str, String)> = Vec::new();
    push_head(&mut members, "snapshot", request_id);
    let ghost start = member_views(members@);
    members.push(("payload", payload.to_json(MemberOrder::ByName)));
    assert(member_views(members@) =~= start + seq![
        ("payload"@, payload_json(payload, MemberOrder::ByName)),
    ]);
    let json = json::write_members(MemberOrder::ByName, &members);
    assert(json@ == payload_text(opt_item(*request_id), payload));
    json
}

fn frame_response(
    request_id: &Option<JsonItem>,
    state: &SharedAppState,
    requested_frame_id: u64,
) -> (json: String)
    ensures
        json@ == frame_text(opt_item(*request_id), state.api_history@, requested_frame_id),
{
    match state.api_frame_at_or_before(requested_frame_id) {
        ApiFrameLookup::Found { requested_frame_id, record, fell_back, fallback_reason } => {
            let mut members: Vec<(&'static str, String)> = Vec::new();
            push_head(&mut members, "frame", request_id);
            let ghost start = member_views(members@);
            members.push(("requestedFrameId", text::decimal_of(requested_frame_id)));
            members.push(("actualFrameId", text::decimal_of(record.frame_id)));
            members.push(("fellBack", json::write_bool(fell_back)));
            members.push(("fallbackReason", json::write_opt_string(&fallback_reason)));
            members.push(("frame", ApiFramePayload::from_record(&record).to_json(MemberOrder::ByName)));
            assert(member_views(members@) =~= start + seq![
                ("requestedFrameId"@, decimal(requested_frame_id as nat)),
                ("actualFrameId"@, decimal(record.frame_id as nat)),
                ("fellBack"@, bool_text(fell_back)),
                ("fallbackReason"@, opt_string_text(text::opt_view(fallback_reason))),
                ("frame"@, frame_json(frame_payload(record), MemberOrder::ByName)),
            ]);
            json::write_members(MemberOrder::ByName, &members)
        },
        ApiFrameLookup::NotRetained { requested_frame_id } => {
            let mut message = "no analyzed frame retained at or before frameId ".to_owned();
            text::push_decimal(&mut message, requested_frame_id);
            error_response(request_id, "frame_not_retained", &message)
        },
    }
}

/// What is answered once a command was handed to the worker, or could not be.
pub open spec fn command_text(
    request_id: Option<ItemView>,
    sent: Result<(), Seq<char>>,
    action: Seq<char>,
) -> Seq<char> {
    match sent {
        Ok(_) => ack_text(request_id, action),
        Err(error) => error_text(
            request_id,
            "command_channel_closed"@,
            "failed to send command to worker: "@ + error,
        ),
    }
}

/// The answer to a command, given whether it was handed to the worker.
pub fn command_response(
    request_id: &Option<JsonItem>,
    sent: Result<(), String>,
    action: &'static str,
) -> (json: String)
    ensures
        json@ == command_text(
            opt_item(*request_id),
            match sent {
                Ok(_) => Ok(()),
                Err(error) => Err(error@),
            },
            action@,
        ),
{
    match sent {
        Ok(_) => ack_response(request_id, action),
        Err(error) => {
            let mut message = "failed to send command to worker: ".to_owned();
            message.append(&error);
            error_response(request_id, "command_channel_closed", &message)
        },
    }
}

/// `step` is what a wish leads to, and `after` the state since.
pub open spec fn fulfils(
    before: SharedAppState,
    after: SharedAppState,
    request_id: Option<ItemView>,
    asked: Wish,
    step: ClientStep,
) -> bool {
    let cancelling = SharedAppState { cancel_calibration: true, ..before };
    match asked {
        Wish::GetSnapshot => after == before && (step matches ClientStep::Reply(json)
            && is_snapshot_answer(json@, request_id, before)),
        Wish::GetFrame(frame_id) => after == before && (step matches ClientStep::Reply(json)
            && json@ == frame_text(request_id, before.api_history@, frame_id)),
        Wish::CancelCalibration => after == cancelling && (step matches ClientStep::Reply(json)
            && json@ == ack_text(request_id, "cancelCalibration"@)),
        Wish::Exit => after == cancelling && (step matches ClientStep::Send {
            command,
            request_id: id,
            action,
        } && command == UiCommand::Exit && opt_item(id) == request_id && action@ == "exit"@),
        _ => after == before && (step matches ClientStep::Send { command, request_id: id, action }
            && wish(ClientAction::SendCommand(command)) == asked && opt_item(id) == request_id
            && action@ == "command"@),
    }
}

/// Fulfils a request, or says which command has to be handed to the worker for it.
pub fn handle_client_request(state: &mut SharedAppState, request: ClientRequest) -> (step:
    ClientStep)
    ensures
        fulfils(
            *old(state),
            *final(state),
            opt_item(request.request_id),
            wish(request.action),
            step,
        ),
{
    match request.action {
        ClientAction::GetSnapshot => ClientStep::Reply(
            snapshot_response(&request.request_id, state),
        ),
        ClientAction::GetFrame { frame_id } => ClientStep::Reply(
            frame_response(&request.request_id, state, frame_id),
        ),
        ClientAction::SendCommand(command) => ClientStep::Send {
            command,
            request_id: request.request_id,
            action: "command",
        },
        ClientAction::CancelCalibration => {
            state.request_cancel_calibration();
            ClientStep::Reply(ack_response(&request.request_id, "cancelCalibration"))
        },
        ClientAction::Exit => {
            state.request_cancel_calibration();
            ClientStep::Send {
                command: UiCommand::Exit,
                request_id: request.request_id,
                action: "exit",
            }
        },
    }
}

/// `step` is what a message leads to.
pub open spec fn answers_message(
    before: SharedAppState,
    after: SharedAppState,
    understood: Understood,
    step: ClientStep,
) -> bool {
    match understood {
        Understood::Request { request_id, wish } => fulfils(before, after, request_id, wish, step),
        Understood::Refused { request_id, code, message } => after == before && (
        step matches ClientStep::Reply(json) && json@ == error_text(request_id, code, message)),
    }
}

/// What follows from what was made of a client's message.
pub fn answer_request(
    state: &mut SharedAppState,
    request: Result<ClientRequest, RequestError>,
) -> (step: ClientStep)
    ensures
        forall|understood: Understood| #[trigger]
            agrees(request, understood) ==> answers_message(
                *old(state),
                *final(state),
                understood,
                step,
            ),
{
    match request {
        Ok(request) => handle_client_request(state, request),
        Err(error) => ClientStep::Reply(
            error_response(&error.request_id, error.code, &error.message),
        ),
    }
}

/// What follows from a client's message.
pub fn handle_client_text(state: &mut SharedAppState, text: &str) -> (step: ClientStep)
    ensures
        answers_message(*old(state), *final(state), understood_text(text@), step),
{
    let request = parse_client_request(text);
    answer_request(state, request)
}

/// The request id that a step answers.
pub open spec fn echoed(step: ClientStep, request_id: Option<ItemView>) -> bool {
    match step {
        ClientStep::Reply(json) => exists|kind: Seq<char>, rest: Seq<(Seq<char>, Seq<char>)>|
            json@ == #[trigger] answer_json(head(kind, request_id) + rest),
        ClientStep::Send { request_id: id, .. } => opt_item(id) == request_id,
    }
}

/// Every answer names the request it answers, whatever was asked and however it was answered.
pub proof fn law_answers_echo_the_request_id(
    before: SharedAppState,
    after: SharedAppState,
    understood: Understood,
    step: ClientStep,
)
    requires
        answers_message(before, after, understood, step),
    ensures
        match understood {
            Understood::Request { request_id, .. } => echoed(step, request_id),
            Understood::Refused { request_id, .. } => echoed(step, request_id),
        },
{
    match understood {
        Understood::Request { request_id, wish } => {
            match wish {
                Wish::GetSnapshot => {
                    let json = step->Reply_0@;
                    let payload = choose|payload: ApiPayload| #[trigger]
                        tells(payload, before.inner, bounds_of(before.api_history@)) && json
                            == payload_text(request_id, payload);
                    assert(json == answer_json(
                        head("snapshot"@, request_id) + seq![
                            ("payload"@, payload_json(payload, MemberOrder::ByName)),
                        ],
                    ));
                },
                Wish::GetFrame(frame_id) => {
                    let json = step->Reply_0@;
                    match record_at_or_before(before.api_history@, frame_id) {
                        Some(record) => {
                            let rest = seq![
                                ("requestedFrameId"@, decimal(frame_id as nat)),
                                ("actualFrameId"@, decimal(record.frame_id as nat)),
                                ("fellBack"@, bool_text(record.frame_id != frame_id)),
                                (
                                    "fallbackReason"@,
                                    opt_string_text(
                                        if record.frame_id != frame_id {
                                            Some(
                                                fallback_reason(before.api_history@, frame_id),
                                            )
                                        } else {
                                            None
                                        },
                                    ),
                                ),
                                ("frame"@, frame_json(frame_payload(record), MemberOrder::ByName)),
                            ];
                            assert(json == answer_json(head("frame"@, request_id) + rest));
                        },
                        None => {
                            lemma_error_echoes(
                                request_id,
                                "frame_not_retained"@,
                                "no analyzed frame retained at or before frameId "@ + decimal(
                                    frame_id as nat,
                                ),
                            );
                        },
                    }
                },
                Wish::CancelCalibration => {
                    let json = step->Reply_0@;
                    assert(json == answer_json(
                        head("ack"@, request_id) + seq![
                            ("action"@, string_text("cancelCalibration"@)),
                        ],
                    ));
                },
                _ => {},
            }
        },
        Understood::Refused { request_id, code, message } => {
            lemma_error_echoes(request_id, code, message);
        },
    }
}

proof fn lemma_error_echoes(request_id: Option<ItemView>, code: Seq<char>, message: Seq<char>)
    ensures
        exists|kind: Seq<char>, rest: Seq<(Seq<char>, Seq<char>)>|
            error_text(request_id, code, message) == #[trigger] answer_json(
                head(kind, request_id) + rest,
            ),
{
    let rest = seq![("code"@, string_text(code)), ("message"@, string_text(message))];
    assert(error_text(request_id, code, message) == answer_json(
        head("error"@, request_id) + rest,
    ));
}

/// Only a request to stop or to end changes what is shared; all others leave it as it is.
pub proof fn law_questions_change_nothing(
    before: SharedAppState,
    after: SharedAppState,
    understood: Understood,
    step: ClientStep,
)
    requires
        answers_message(before, after, understood, step),
    ensures
        after.inner == before.inner,
        after.api_history == before.api_history,
        after.wakes == before.wakes,
        after.cancel_calibration ==> before.cancel_calibration || (
        understood matches Understood::Request { wish, .. } && (wish == Wish::CancelCalibration
            || wish == Wish::Exit)),
{
}

/// A request for a frame that is still there is answered with that frame: the answer says that it
/// is the one asked for and not another, and under each name stands what was recorded under it.
pub proof fn law_kept_frame_is_answered_as_recorded(
    before: SharedAppState,
    after: SharedAppState,
    request_id: Option<ItemView>,
    step: ClientStep,
    i: int,
)
    requires
        in_capture_order(before.api_history@),
        0 <= i < before.api_history@.len(),
        fulfils(
            before,
            after,
            request_id,
            Wish::GetFrame(before.api_history@[i].frame_id),
            step,
        ),
    ensures
        ({
            let record = before.api_history@[i];
            &&& step matches ClientStep::Reply(json)
            &&& exists|rest: Seq<(Seq<char>, Seq<char>)>, frame: Seq<(Seq<char>, Seq<char>)>|
                {
                    &&& json@ == #[trigger] answer_json(head("frame"@, request_id) + rest)
                    &&& rest.contains(("requestedFrameId"@, decimal(record.frame_id as nat)))
                    &&& rest.contains(("actualFrameId"@, decimal(record.frame_id as nat)))
                    &&& rest.contains(("fellBack"@, "false"@))
                    &&& rest.contains(("fallbackReason"@, "null"@))
                    &&& rest.contains(("frame"@, #[trigger] answer_json(frame)))
                    &&& members_tell_record(frame, record)
                }
        }),
{
    let history = before.api_history@;
    let record = history[i];
    crate::worker::law_lookup_gives_the_nearest_earlier_frame(history, record.frame_id);
    assert(record_at_or_before(history, record.frame_id) is Some);
    let found = record_at_or_before(history, record.frame_id)->0;
    let k = choose|k: int| 0 <= k < history.len() && history[k] == found;
    assert(history[i].frame_id <= record.frame_id);
    assert(found.frame_id == record.frame_id);
    if k < i {
        assert(history[k].frame_id < history[i].frame_id);
    } else if i < k {
        assert(history[i].frame_id < history[k].frame_id);
    }
    assert(found == record);
    let frame = frame_members(frame_payload(record), MemberOrder::ByName);
    payload::law_frame_is_told_as_recorded(record, MemberOrder::ByName);
    let none: Option<Seq<char>> = None;
    let rest = seq![
        ("requestedFrameId"@, decimal(record.frame_id as nat)),
        ("actualFrameId"@, decimal(record.frame_id as nat)),
        ("fellBack"@, bool_text(false)),
        ("fallbackReason"@, opt_string_text(none)),
        ("frame"@, frame_json(frame_payload(record), MemberOrder::ByName)),
    ];
    assert(rest[0].0 == "requestedFrameId"@);
    assert(rest[1].0 == "actualFrameId"@);
    assert(rest[2] == ("fellBack"@, "false"@));
    assert(rest[3] == ("fallbackReason"@, "null"@));
    assert(rest[4] == ("frame"@, answer_json(frame)));
    assert(step->Reply_0@ == answer_json(head("frame"@, request_id) + rest));
}

/// A request for a frame that was skipped, or not captured yet, is answered with the nearest earlier
/// one that was recorded, and the answer says so and why; where there is none, with an error.
pub proof fn law_missing_frame_is_answered_with_an_earlier_one(
    before: SharedAppState,
    after: SharedAppState,
    request_id: Option<ItemView>,
    frame_id: u64,
    step: ClientStep,
)
    requires
        in_capture_order(before.api_history@),
        forall|i: int|
            0 <= i < before.api_history@.len() ==> (#[trigger] before.api_history@[i]).frame_id
                != frame_id,
        fulfils(before, after, request_id, Wish::GetFrame(frame_id), step),
    ensures
        step is Reply,
        ({
            let history = before.api_history@;
            let json = step->Reply_0@;
            if history.len() == 0 || history[0].frame_id > frame_id {
                exists|message: Seq<char>|
                    json == #[trigger] error_text(request_id, "frame_not_retained"@, message)
            } else {
                exists|rest: Seq<(Seq<char>, Seq<char>)>, i: int|
                    {
                        &&& json == #[trigger] answer_json(head("frame"@, request_id) + rest)
                        &&& 0 <= i < history.len()
                        &&& (#[trigger] history[i]).frame_id < frame_id
                        &&& i + 1 < history.len() ==> history[i + 1].frame_id > frame_id
                        &&& rest.contains(("requestedFrameId"@, decimal(frame_id as nat)))
                        &&& rest.contains(("actualFrameId"@, decimal(history[i].frame_id as nat)))
                        &&& rest.contains(("fellBack"@, "true"@))
                        &&& rest.contains(
                            (
                                "fallbackReason"@,
                                string_text(
                                    if i + 1 < history.len() {
                                        "frame_skipped"@
                                    } else {
                                        "requested_after_latest"@
                                    },
                                ),
                            ),
                        )
                    }
            }
        }),
{
    let history = before.api_history@;
    let json = step->Reply_0@;
    crate::worker::law_lookup_gives_the_nearest_earlier_frame(history, frame_id);
    if history.len() == 0 || history[0].frame_id > frame_id {
        if record_at_or_before(history, frame_id) is Some {
            let found = record_at_or_before(history, frame_id)->0;
            let k = choose|k: int| 0 <= k < history.len() && history[k] == found;
            if k > 0 {
                assert(history[0].frame_id < history[k].frame_id);
            }
        }
        let message = "no analyzed frame retained at or before frameId "@ + decimal(
            frame_id as nat,
        );
        assert(json == error_text(request_id, "frame_not_retained"@, message));
    } else {
        assert(history[0].frame_id <= frame_id);
        let record = record_at_or_before(history, frame_id)->0;
        let i = choose|k: int| 0 <= k < history.len() && history[k] == record;
        assert(history[i].frame_id != frame_id);
        if i + 1 < history.len() {
            assert(history[i].frame_id < history[i + 1].frame_id);
            assert(history[i + 1].frame_id > frame_id);
            assert(i + 1 == history.len() - 1 || history[i + 1].frame_id < history[history.len()
                - 1].frame_id);
        }
        let rest = seq![
            ("requestedFrameId"@, decimal(frame_id as nat)),
            ("actualFrameId"@, decimal(record.frame_id as nat)),
            ("fellBack"@, bool_text(true)),
            ("fallbackReason"@, opt_string_text(Some(fallback_reason(history, frame_id)))),
            ("frame"@, frame_json(frame_payload(record), MemberOrder::ByName)),
        ];
        assert(rest[0].0 == "requestedFrameId"@);
        assert(rest[1].0 == "actualFrameId"@);
        assert(rest[2] == ("fellBack"@, "true"@));
        assert(rest[3] == (
            "fallbackReason"@,
            string_text(
                if i + 1 < history.len() {
                    "frame_skipped"@
                } else {
                    "requested_after_latest"@
                },
            ),
        ));
        assert(json == answer_json(head("frame"@, request_id) + rest));
        assert(history[i].frame_id < frame_id);
    }
}

/// A request for a snapshot is answered with what is shown and shared at that moment, under the
/// names of the API, and with the numbers of the oldest and the latest frame that are still there.
pub proof fn law_snapshot_is_answered_as_it_is(
    before: SharedAppState,
    after: SharedAppState,
    request_id: Option<ItemView>,
    step: ClientStep,
)
    requires
        fulfils(before, after, request_id, Wish::GetSnapshot, step),
    ensures
        step is Reply,
        exists|members: Seq<(Seq<char>, Seq<char>)>|
            {
                &&& step->Reply_0@ == answer_json(
                    head("snapshot"@, request_id) + seq![
                        ("payload"@, #[trigger] answer_json(members)),
                    ],
                )
                &&& members_tell_snapshot(members, before.inner, bounds_of(before.api_history@))
            },
{
    let bounds = bounds_of(before.api_history@);
    let json = step->Reply_0@;
    let payload = choose|payload: ApiPayload| #[trigger]
        tells(payload, before.inner, bounds) && json == payload_text(request_id, payload);
    payload::law_snapshot_is_told_as_it_is(payload, before.inner, bounds, MemberOrder::ByName);
    let members = payload_members(payload, MemberOrder::ByName);
    assert(payload_json(payload, MemberOrder::ByName) == answer_json(members));
}

/// What clients get by HTTP and what is pushed to them is the same snapshot, in the order in which
/// the API documents its members.
pub proof fn law_pushed_snapshot_is_as_it_is(json: Seq<char>, state: SharedAppState)
    requires
        is_snapshot(json, state),
    ensures
        exists|members: Seq<(Seq<char>, Seq<char>)>|
            {
                &&& json == #[trigger] members_text(MemberOrder::AsGiven, members)
                &&& members[0].0 == "apiVersion"@
                &&& members_tell_snapshot(members, state.inner, bounds_of(state.api_history@))
            },
{
    let bounds = bounds_of(state.api_history@);
    let payload = choose|payload: ApiPayload| #[trigger]
        tells(payload, state.inner, bounds) && json == payload_json(payload, MemberOrder::AsGiven);
    payload::law_snapshot_is_told_as_it_is(payload, state.inner, bounds, MemberOrder::AsGiven);
    let members = payload_members(payload, MemberOrder::AsGiven);
    assert(json == members_text(MemberOrder::AsGiven, members));
}

/// A wish that is a command reaches the worker as that command and no other; a wish to stop the
/// calibration is granted at once, and a wish to end stops the calibration too and goes on to the
/// worker.
pub proof fn law_commands_reach_the_worker(
    before: SharedAppState,
    after: SharedAppState,
    request_id: Option<ItemView>,
    asked: Wish,
    step: ClientStep,
)
    requires
        fulfils(before, after, request_id, asked, step),
    ensures
        asked is CancelCalibration ==> after.cancel_calibration && step is Reply,
        asked is Exit ==> after.cancel_calibration && step is Send && step->command
            == UiCommand::Exit,
        asked is GetSnapshot || asked is GetFrame ==> step is Reply && after == before,
        !(asked is CancelCalibration || asked is Exit || asked is GetSnapshot || asked is GetFrame)
            ==> step is Send && after == before && wish(ClientAction::SendCommand(step->command))
            == asked,
        step is Send ==> opt_item(step->request_id) == request_id,
{
}

/// A command that was handed over is acknowledged under the name it was sent by; one that could not
/// be is answered with an error that says why.
pub proof fn law_only_commands_that_were_sent_are_acknowledged(
    request_id: Option<ItemView>,
    error: Seq<char>,
    action: Seq<char>,
)
    ensures
        command_text(request_id, Ok(()), action) == answer_json(
            head("ack"@, request_id) + seq![("action"@, string_text(action))],
        ),
        exists|rest: Seq<(Seq<char>, Seq<char>)>|
            {
                &&& command_text(request_id, Err(error), action) == #[trigger] answer_json(
                    head("error"@, request_id) + rest,
                )
                &&& rest.contains(("code"@, string_text("command_channel_closed"@)))
                &&& rest.contains(
                    ("message"@, string_text("failed to send command to worker: "@ + error)),
                )
            },
{
    let rest = seq![
        ("code"@, string_text("command_channel_closed"@)),
        ("message"@, string_text("failed to send command to worker: "@ + error)),
    ];
    assert(rest[0].0 == "code"@);
    assert(rest[1].0 == "message"@);
    assert(command_text(request_id, Err(error), action) == answer_json(
        head("error"@, request_id) + rest,
    ));
}

} // verus!
