//! What holds of every exchange, every tool call and every notification.

use super::channel::{Delivery, Sink};
use super::error::{recorded_kind, structured_errors_carry_their_kind, ErrorKind};
use super::handler::{receives, settles, Exchange};
use super::json::{is_empty_object, is_null, member};
use super::notify::{event_with_data, is_event_round, is_line_round, lines_tried, still_open};
use super::protocol::{CallToolResult, JsonRpcRequest, JsonRpcResponse};
use super::tool_call::{
    advances, changes_tool_list, fills_in, fits, not_loaded_message, panic_detail, panic_message,
    unknown_message, CallStatus, Stage, ToolEvent, ToolOutcome,
};
use axum::response::sse::Event;
use serde_json::Value;
use vstd::prelude::*;

verus! {

/// `answer` ends the exchange that `msg` opened.
pub open spec fn concludes(
    msg: Value,
    decoded: Result<JsonRpcRequest, String>,
    answer: Option<JsonRpcResponse>,
) -> bool {
    exists|exchange: Exchange|
        {
            &&& #[trigger] receives(msg, decoded, exchange)
            &&& match exchange {
                Exchange::Closed(given) => answer == given,
                Exchange::Waiting { id, task } => exists|outcome: Result<Value, String>|
                    settles(id, outcome, answer),
            }
        }
}

/// A notification, which has no id, never gets an answer, whatever its method. A
/// request always gets one, at once or after its work, unless its method is that of
/// the client's own `notifications/initialized`.
pub proof fn only_notifications_go_unanswered(
    msg: Value,
    request: JsonRpcRequest,
    answer: Option<JsonRpcResponse>,
)
    requires
        member(msg, "method"@) is Some,
        concludes(msg, Ok(request), answer),
    ensures
        answer is None <==> request.id is None || request.method@ == "notifications/initialized"@,
{
    reveal_strlit("initialize");
    reveal_strlit("notifications/initialized");
    assert("initialize"@.len() != "notifications/initialized"@.len());
}

/// A message without a method gets no answer, and one with a method that is no
/// valid request always gets one.
pub proof fn a_bad_request_is_refused(msg: Value, detail: String, exchange: Exchange)
    requires
        receives(msg, Err(detail), exchange),
    ensures
        exchange is Closed,
        exchange == Exchange::Closed(None) <==> member(msg, "method"@) is None,
{
}

/// An answer bears the id of its request, `null` where the message held no valid
/// request, and either a result or an error.
pub proof fn answers_match_their_request(
    msg: Value,
    decoded: Result<JsonRpcRequest, String>,
    response: JsonRpcResponse,
)
    requires
        concludes(msg, decoded, Some(response)),
    ensures
        decoded matches Ok(request) ==> request.id == Some(response.id),
        decoded is Err ==> is_null(response.id),
        response.result is Some <==> response.error is None,
{
}

/// A request that leaves its arguments out and one that gives an empty object hand
/// the tool the same value, never `null`.
pub proof fn left_out_arguments_are_an_empty_object(given: Value, left_out: Value, named: Value)
    requires
        is_empty_object(given),
        fills_in(None, left_out),
        fills_in(Some(given), named),
    ensures
        left_out == named,
        is_empty_object(left_out),
{
}

/// How many events a call can still need.
pub open spec fn steps_left(stage: Stage) -> nat {
    match stage {
        Stage::AskMeta => 3,
        Stage::LookUp => 2,
        Stage::Notify(_) => 1,
        Stage::Run => 1,
        Stage::Locate => 1,
        Stage::Done(_) => 0,
    }
}

/// Each event that answers what the call asked for brings the call nearer to
/// its end.
pub proof fn every_event_brings_the_end_nearer(
    name: Seq<char>,
    stage: Stage,
    event: ToolEvent,
    after: Stage,
)
    requires
        fits(stage, event),
        advances(name, stage, event, after),
    ensures
        steps_left(after) < steps_left(stage),
        steps_left(after) == 0 <==> after is Done,
{
}

/// The stages that a call of `name` goes through as it meets these events.
pub open spec fn is_run(name: Seq<char>, events: Seq<ToolEvent>, stages: Seq<Stage>) -> bool {
    &&& stages.len() == events.len() + 1
    &&& stages[0] is AskMeta
    &&& forall|i: int|
        0 <= i < events.len() ==> advances(name, stages[i], #[trigger] events[i], stages[i + 1])
}

/// Every call ends, after three events at most, if each event answers what the
/// call asked for.
pub proof fn every_call_ends(
    name: Seq<char>,
    events: Seq<ToolEvent>,
    stages: Seq<Stage>,
    k: int,
)
    requires
        is_run(name, events, stages),
        forall|i: int| 0 <= i < events.len() ==> fits(stages[i], #[trigger] events[i]),
        0 <= k < stages.len(),
    ensures
        k + steps_left(stages[k]) <= 3,
        events.len() <= 3,
        k == 3 ==> stages[k] is Done,
{
    lemma_run_is_bounded(name, events, stages, k);
    lemma_run_is_bounded(name, events, stages, events.len() as int);
}

proof fn lemma_run_is_bounded(
    name: Seq<char>,
    events: Seq<ToolEvent>,
    stages: Seq<Stage>,
    k: int,
)
    requires
        is_run(name, events, stages),
        forall|i: int| 0 <= i < events.len() ==> fits(stages[i], #[trigger] events[i]),
        0 <= k < stages.len(),
    ensures
        k + steps_left(stages[k]) <= 3,
    decreases k,
{
    if k > 0 {
        lemma_run_is_bounded(name, events, stages, k - 1);
        every_event_brings_the_end_nearer(name, stages[k - 1], events[k - 1], stages[k]);
    }
}

/// An event that does not answer what the call asked for changes nothing.
pub proof fn stray_events_change_nothing(
    name: Seq<char>,
    stage: Stage,
    event: ToolEvent,
    after: Stage,
)
    requires
        !fits(stage, event),
        advances(name, stage, event, after),
    ensures
        after == stage,
{
}

/// Meta-tools always win: once one has answered, the call ends with that
/// answer, whether or not a loaded tool has the same name.
pub proof fn meta_tools_win(
    name: Seq<char>,
    result: CallToolResult,
    after: Stage,
    event: ToolEvent,
    end: Stage,
)
    requires
        advances(name, Stage::AskMeta, ToolEvent::Meta(Some(result)), after),
        advances(name, after, event, end),
    ensures
        after is Done || after is Notify,
        after matches Stage::Done(outcome) ==> outcome.of_meta(result) && end == after,
        end is Done || end is Notify,
        end matches Stage::Done(outcome) ==> outcome.of_meta(result),
{
}

/// Before the `k`-th stage, no meta-tool had the name.
pub open spec fn meta_missed(events: Seq<ToolEvent>, stages: Seq<Stage>, k: int) -> bool {
    exists|i: int|
        0 <= i < k && stages[i] is AskMeta && #[trigger] events[i] == ToolEvent::Meta(None)
}

/// Before the `k`-th stage, no loaded tool had the name.
pub open spec fn tool_missed(events: Seq<ToolEvent>, stages: Seq<Stage>, k: int) -> bool {
    exists|i: int|
        0 <= i < k && stages[i] is LookUp && #[trigger] events[i] == ToolEvent::LookedUp(false)
}

/// Up to the `k`-th stage, no handler was asked for.
pub open spec fn nothing_ran(stages: Seq<Stage>, k: int) -> bool {
    forall|i: int| 0 <= i <= k ==> !(#[trigger] stages[i] is Run)
}

/// What a call has been through by its `k`-th stage.
spec fn has_been_through(events: Seq<ToolEvent>, stages: Seq<Stage>, k: int) -> bool {
    let meta = meta_missed(events, stages, k);
    let tool = tool_missed(events, stages, k);
    match stages[k] {
        Stage::AskMeta => !meta && !tool && nothing_ran(stages, k),
        Stage::Notify(outcome) => !meta && !tool && nothing_ran(stages, k)
            && outcome.status != CallStatus::NotFound,
        Stage::LookUp => meta && !tool && nothing_ran(stages, k),
        Stage::Run => meta && !tool,
        Stage::Locate => meta && tool && nothing_ran(stages, k),
        Stage::Done(outcome) => {
            &&& outcome.status == CallStatus::NotFound <==> meta && tool
            &&& outcome.status == CallStatus::NotFound ==> nothing_ran(stages, k)
        },
    }
}

proof fn lemma_been_through(
    name: Seq<char>,
    events: Seq<ToolEvent>,
    stages: Seq<Stage>,
    k: int,
)
    requires
        is_run(name, events, stages),
        0 <= k < stages.len(),
    ensures
        has_been_through(events, stages, k),
    decreases k,
{
    if k > 0 {
        let j = k - 1;
        lemma_been_through(name, events, stages, j);
        assert(advances(name, stages[j], events[j], stages[k]));
        assert(meta_missed(events, stages, k) <==> meta_missed(events, stages, j) || (
        stages[j] is AskMeta && events[j] == ToolEvent::Meta(None)));
        assert(tool_missed(events, stages, k) <==> tool_missed(events, stages, j) || (
        stages[j] is LookUp && events[j] == ToolEvent::LookedUp(false)));
        assert(nothing_ran(stages, k) <==> nothing_ran(stages, j) && !(stages[k] is Run));
    }
}

/// A call ends as not found exactly where no meta-tool and no loaded tool has its
/// name, and then no handler was asked for.
pub proof fn not_found_means_no_tool_has_the_name(
    name: Seq<char>,
    events: Seq<ToolEvent>,
    stages: Seq<Stage>,
    k: int,
)
    requires
        is_run(name, events, stages),
        0 <= k < stages.len(),
    ensures
        stages[k] matches Stage::Done(outcome) ==> {
            &&& outcome.status == CallStatus::NotFound <==> meta_missed(events, stages, k)
                && tool_missed(events, stages, k)
            &&& outcome.status == CallStatus::NotFound ==> nothing_ran(stages, k)
        },
{
    lemma_been_through(name, events, stages, k);
}

/// A tool that is loaded is called: its handler is asked for next, and the call does
/// not end as not found. So a call that failed for want of its toolset works when it
/// is tried again with the toolset loaded.
pub proof fn a_loaded_tool_is_called(
    name: Seq<char>,
    events: Seq<ToolEvent>,
    stages: Seq<Stage>,
    j: int,
    k: int,
)
    requires
        is_run(name, events, stages),
        0 <= j < k < stages.len(),
        stages[j] is LookUp,
        events[j] == ToolEvent::LookedUp(true),
    ensures
        stages[j + 1] is Run,
        stages[k] matches Stage::Done(outcome) ==> outcome.status != CallStatus::NotFound,
{
    assert(advances(name, stages[j], events[j], stages[j + 1]));
    lemma_been_through(name, events, stages, k);
    assert(!nothing_ran(stages, k));
}

/// Clients are told of a changed list of tools exactly when a meta-tool that
/// changes it has answered.
pub proof fn clients_hear_of_toolset_changes(
    name: Seq<char>,
    stage: Stage,
    event: ToolEvent,
    after: Stage,
)
    requires
        !(stage is Notify),
        advances(name, stage, event, after),
    ensures
        after is Notify <==> stage is AskMeta && (event matches ToolEvent::Meta(answer)
            && answer is Some) && changes_tool_list(name),
{
}

/// A handler that panics costs one failed call: the call ends, with an error
/// whose body and record say `handler_error` and whose message names the tool
/// and the panic.
pub proof fn a_panic_is_one_failed_call(name: Seq<char>, payload: Option<String>, after: Stage)
    requires
        advances(name, Stage::Run, ToolEvent::Panicked(payload), after),
    ensures
        after matches Stage::Done(outcome) && outcome.result.is_error && outcome.status
            == CallStatus::Error && outcome.records(Some("handler_error"@)) && recorded_kind(
            outcome.result,
        ) == Some("handler_error"@) && outcome.of_failure(
            ErrorKind::HandlerError { reason: "handler panicked: "@ + panic_detail(payload) },
            panic_message(name, panic_detail(payload)),
            CallStatus::Error,
        ),
{
    let outcome = after->Done_0;
    structured_errors_carry_their_kind(
        outcome.result,
        ErrorKind::HandlerError { reason: "handler panicked: "@ + panic_detail(payload) },
        panic_message(name, panic_detail(payload)),
    );
}

/// What holds of the outcome of every call.
pub open spec fn consistent(outcome: ToolOutcome) -> bool {
    &&& outcome.status == CallStatus::Success <==> !outcome.result.is_error
    &&& outcome.error_kind is Some ==> outcome.records(recorded_kind(outcome.result))
}

/// The outcome that a call carries, if it has one yet.
pub open spec fn carried(stage: Stage) -> Option<ToolOutcome> {
    match stage {
        Stage::Notify(outcome) => Some(outcome),
        Stage::Done(outcome) => Some(outcome),
        _ => None,
    }
}

/// The log says `Success` of exactly the calls whose result is no error, and an
/// error kind in the log is the one that the result itself carries.
pub proof fn the_log_agrees_with_the_result(
    name: Seq<char>,
    events: Seq<ToolEvent>,
    stages: Seq<Stage>,
    k: int,
)
    requires
        is_run(name, events, stages),
        0 <= k < stages.len(),
    ensures
        carried(stages[k]) matches Some(outcome) ==> consistent(outcome),
    decreases k,
{
    if k > 0 {
        the_log_agrees_with_the_result(name, events, stages, k - 1);
        lemma_step_keeps_consistency(name, stages[k - 1], events[k - 1], stages[k]);
    }
}

proof fn lemma_step_keeps_consistency(
    name: Seq<char>,
    stage: Stage,
    event: ToolEvent,
    after: Stage,
)
    requires
        carried(stage) matches Some(outcome) ==> consistent(outcome),
        advances(name, stage, event, after),
    ensures
        carried(after) matches Some(outcome) ==> consistent(outcome),
{
    match (stage, event) {
        (Stage::Run, ToolEvent::Returned(Err(reason))) => {
            structured_errors_carry_their_kind(
                after->Done_0.result,
                ErrorKind::HandlerError { reason: reason@ },
                "Tool error: "@ + reason@,
            );
        },
        (Stage::Run, ToolEvent::Panicked(payload)) => {
            a_panic_is_one_failed_call(name, payload, after);
        },
        (Stage::Locate, ToolEvent::Located(Some(toolset))) => {
            structured_errors_carry_their_kind(
                after->Done_0.result,
                ErrorKind::ToolsetNotLoaded { toolset: toolset@, tool: name },
                not_loaded_message(name, toolset@),
            );
        },
        (Stage::Locate, ToolEvent::Located(None)) => {
            structured_errors_carry_their_kind(
                after->Done_0.result,
                ErrorKind::UnknownTool { tool: name },
                unknown_message(name),
            );
        },
        _ => {},
    }
}

/// A sink stays registered exactly when its receiver is not gone; so one that was
/// full is still there for the next notification.
pub proof fn only_closed_sinks_leave<S>(sinks: Seq<S>, outcomes: Seq<Delivery>, sink: S)
    requires
        sinks.len() == outcomes.len(),
    ensures
        still_open(sinks, outcomes).contains(sink) <==> exists|i: int|
            0 <= i < sinks.len() && #[trigger] sinks[i] == sink && !(outcomes[i] is Closed),
        still_open(sinks, outcomes).len() <= sinks.len(),
    decreases sinks.len(),
{
    if sinks.len() > 0 {
        let fewer = sinks.drop_last();
        let before = outcomes.drop_last();
        only_closed_sinks_leave(fewer, before, sink);
        let kept = still_open(fewer, before);
        let all = still_open(sinks, outcomes);
        let n = sinks.len() - 1;
        if all.contains(sink) {
            let j = choose|j: int| 0 <= j < all.len() && all[j] == sink;
            if j < kept.len() {
                assert(kept[j] == sink);
                assert(kept.contains(sink));
                let i = choose|i: int|
                    0 <= i < fewer.len() && #[trigger] fewer[i] == sink && !(before[i] is Closed);
                assert(sinks[i] == sink && !(outcomes[i] is Closed));
            } else {
                assert(sinks[n] == sink && !(outcomes[n] is Closed));
            }
        }
        if exists|i: int|
            0 <= i < sinks.len() && #[trigger] sinks[i] == sink && !(outcomes[i] is Closed) {
            let i = choose|i: int|
                0 <= i < sinks.len() && #[trigger] sinks[i] == sink && !(outcomes[i] is Closed);
            if i < n {
                assert(fewer[i] == sink && !(before[i] is Closed));
                assert(kept.contains(sink));
                let j = choose|j: int| 0 <= j < kept.len() && kept[j] == sink;
                assert(all[j] == sink);
            } else {
                assert(all[all.len() - 1] == sink);
            }
        }
    }
}

/// Where no receiver is gone, all sinks stay, in their order.
pub proof fn live_sinks_all_stay<S>(sinks: Seq<S>, outcomes: Seq<Delivery>)
    requires
        sinks.len() == outcomes.len(),
        forall|i: int| 0 <= i < outcomes.len() ==> !(#[trigger] outcomes[i] is Closed),
    ensures
        still_open(sinks, outcomes) == sinks,
    decreases sinks.len(),
{
    if sinks.len() > 0 {
        let before = outcomes.drop_last();
        assert forall|i: int| 0 <= i < before.len() implies !(#[trigger] before[i] is Closed) by {
            assert(before[i] == outcomes[i]);
        }
        live_sinks_all_stay(sinks.drop_last(), before);
        assert(!(outcomes[outcomes.len() - 1] is Closed));
        assert(sinks.drop_last().push(sinks.last()) =~= sinks);
    }
}

/// The messages of a log that their channel took.
pub open spec fn heard<M>(log: Seq<(M, Delivery)>) -> Seq<M>
    decreases log.len(),
{
    if log.len() == 0 {
        Seq::empty()
    } else if log.last().1 is Taken {
        heard(log.drop_last()).push(log.last().0)
    } else {
        heard(log.drop_last())
    }
}

proof fn lemma_heard_push<M>(log: Seq<(M, Delivery)>, message: M, outcome: Delivery)
    ensures
        heard(log.push((message, outcome))) == if outcome is Taken {
            heard(log).push(message)
        } else {
            heard(log)
        },
{
    assert(log.push((message, outcome)).drop_last() =~= log);
}

/// A round brings a client that takes it exactly one event, the one that carries
/// the text, and any other client nothing. A client that is there stays registered,
/// whatever came of the others.
pub proof fn each_client_hears_an_event_once(
    before: Seq<Sink<Event>>,
    after: Seq<Sink<Event>>,
    data: Seq<char>,
    outcomes: Seq<Delivery>,
    i: int,
)
    requires
        is_event_round(before, after, data, outcomes),
        0 <= i < before.len(),
    ensures
        after[i].sender() == before[i].sender(),
        heard(after[i].tried()) == if outcomes[i] is Taken {
            heard(before[i].tried()).push(event_with_data(data))
        } else {
            heard(before[i].tried())
        },
        !(outcomes[i] is Closed) ==> still_open(after, outcomes).contains(after[i]),
{
    lemma_heard_push(before[i].tried(), event_with_data(data), outcomes[i]);
    only_closed_sinks_leave(after, outcomes, after[i]);
}

/// A round brings a sink that takes it exactly one line, the text, and any other
/// sink nothing. A sink that is there stays registered, whatever came of the others.
pub proof fn each_sink_hears_a_line_once(
    before: Seq<Sink<String>>,
    after: Seq<Sink<String>>,
    line: Seq<char>,
    outcomes: Seq<Delivery>,
    i: int,
)
    requires
        is_line_round(before, after, line, outcomes),
        0 <= i < before.len(),
    ensures
        after[i].sender() == before[i].sender(),
        heard(lines_tried(after[i])) == if outcomes[i] is Taken {
            heard(lines_tried(before[i])).push(line)
        } else {
            heard(lines_tried(before[i]))
        },
        !(outcomes[i] is Closed) ==> still_open(after, outcomes).contains(after[i]),
{
    lemma_heard_push(lines_tried(before[i]), line, outcomes[i]);
    only_closed_sinks_leave(after, outcomes, after[i]);
}

} // verus!
