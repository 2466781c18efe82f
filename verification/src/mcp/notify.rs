//! Notifications that the server sends of its own accord.

use super::channel::{Delivery, Sink};
use super::json;
use super::json::{
    is_plain_key, is_report, json_text, json_value, member, members, members_of, string_value,
};
use axum::response::sse::Event;
use serde_json::Value;
use vstd::prelude::*;

verus! {

/// `axum::response::sse::Event`, a server-sent event.
#[verifier::external_type_specification]
#[verifier::external_body]
pub struct ExEvent(axum::response::sse::Event);

/// The server-sent event that carries this text as its data.
pub uninterp spec fn event_with_data(data: Seq<char>) -> Event;

/// `Event::data` on a fresh event: the event that carries `data`.
#[verifier::external_body]
fn sse_event(data: &str) -> (res: Event)
    ensures
        res == event_with_data(data@),
{
    Event::default().data(data)
}

/// The method of the notification that the list of tools has changed.
pub const TOOLS_LIST_CHANGED: &'static str = "notifications/tools/list_changed";

/// The sinks whose receiver is not gone, in their order.
pub open spec fn still_open<S>(sinks: Seq<S>, outcomes: Seq<Delivery>) -> Seq<S>
    decreases sinks.len(),
{
    if sinks.len() == 0 {
        Seq::empty()
    } else {
        let kept = still_open(sinks.drop_last(), outcomes.drop_last());
        if outcomes.last() is Closed {
            kept
        } else {
            kept.push(sinks.last())
        }
    }
}

/// The sinks whose receiver is gone, in their order.
pub open spec fn gone<S>(sinks: Seq<S>, outcomes: Seq<Delivery>) -> Seq<S>
    decreases sinks.len(),
{
    if sinks.len() == 0 {
        Seq::empty()
    } else {
        let dropped = gone(sinks.drop_last(), outcomes.drop_last());
        if outcomes.last() is Closed {
            dropped.push(sinks.last())
        } else {
            dropped
        }
    }
}

/// The lines that were offered to a sink, each with what came of it.
pub open spec fn lines_tried(sink: Sink<String>) -> Seq<(Seq<char>, Delivery)> {
    sink.tried().map_values(|entry: (String, Delivery)| (entry.0@, entry.1))
}

/// Each client was offered the event with this data, once, and nothing else.
pub open spec fn is_event_round(
    before: Seq<Sink<Event>>,
    after: Seq<Sink<Event>>,
    data: Seq<char>,
    outcomes: Seq<Delivery>,
) -> bool {
    &&& after.len() == before.len()
    &&& outcomes.len() == before.len()
    &&& forall|i: int|
        0 <= i < before.len() ==> (#[trigger] after[i]).sender() == before[i].sender()
            && after[i].tried() == before[i].tried().push((event_with_data(data), outcomes[i]))
}

/// Each sink was offered this line, once, and nothing else.
pub open spec fn is_line_round(
    before: Seq<Sink<String>>,
    after: Seq<Sink<String>>,
    line: Seq<char>,
    outcomes: Seq<Delivery>,
) -> bool {
    &&& after.len() == before.len()
    &&& outcomes.len() == before.len()
    &&& forall|i: int|
        0 <= i < before.len() ==> (#[trigger] after[i]).sender() == before[i].sender()
            && after[i].tried().len() > 0 && after[i].tried().drop_last() == before[i].tried()
            && lines_tried(after[i]) == lines_tried(before[i]).push((line, outcomes[i]))
}

/// What came of a notification.
#[verifier::reject_recursive_types(T)]
pub struct Round<T> {
    /// What came of it for each client, in the order in which they were registered.
    pub outcomes: Vec<Delivery>,
    /// The clients that are gone, and no longer registered.
    pub gone: Vec<Sink<T>>,
}

/// `v` is the notification of this method, without parameters.
pub open spec fn is_notification(v: Value, method: Seq<char>) -> bool {
    &&& members(v) matches Some(m) && m.dom() == set!["jsonrpc"@, "method"@]
    &&& member(v, "jsonrpc"@) matches Some(version) && string_value(version) == Some("2.0"@)
    &&& member(v, "method"@) matches Some(name) && string_value(name) == Some(method)
}

/// Parts the sinks whose receiver is there, which stay, from those whose receiver is
/// gone. One that was full has missed a message and stays: it gets the next.
pub fn part_gone<S>(sinks: Vec<S>, outcomes: &Vec<Delivery>) -> (res: (Vec<S>, Vec<S>))
    requires
        sinks@.len() == outcomes@.len(),
    ensures
        res.0@ == still_open(sinks@, outcomes@),
        res.1@ == gone(sinks@, outcomes@),
{
    let ghost all = sinks@;
    let mut rest = sinks;
    let mut kept: Vec<S> = Vec::new();
    let mut dropped: Vec<S> = Vec::new();
    let mut i: usize = 0;
    while i < outcomes.len()
        invariant
            i <= outcomes@.len(),
            all.len() == outcomes@.len(),
            rest@ == all.skip(i as int),
            kept@ == still_open(all.take(i as int), outcomes@.take(i as int)),
            dropped@ == gone(all.take(i as int), outcomes@.take(i as int)),
        decreases outcomes.len() - i,
    {
        let sink = rest.remove(0);
        proof {
            assert(all.take(i + 1).drop_last() =~= all.take(i as int));
            assert(outcomes@.take(i + 1).drop_last() =~= outcomes@.take(i as int));
            assert(rest@ =~= all.skip(i + 1));
        }
        match outcomes[i] {
            Delivery::Closed => {
                dropped.push(sink);
            },
            _ => {
                kept.push(sink);
            },
        }
        i += 1;
    }
    proof {
        assert(all.take(all.len() as int) =~= all);
        assert(outcomes@.take(all.len() as int) =~= outcomes@);
    }
    (kept, dropped)
}

proof fn lemma_names()
    ensures
        "jsonrpc"@ != "method"@,
        is_plain_key("jsonrpc"@),
        is_plain_key("method"@),
{
    reveal_strlit("jsonrpc");
    reveal_strlit("method");
    assert("jsonrpc"@.len() != "method"@.len());
}

/// The notification of this method, without parameters.
fn notification(method: &str) -> (res: Value)
    ensures
        is_notification(res, method@),
{
    proof {
        lemma_names();
        reveal_with_fuel(members_of, 3);
    }
    let mut entries: Vec<(String, Value)> = Vec::new();
    entries.push(("jsonrpc".to_owned(), json::string("2.0".to_owned())));
    entries.push(("method".to_owned(), json::string(method.to_owned())));
    let res = json::object(entries);
    assert(members(res)->0.dom() =~= set!["jsonrpc"@, "method"@]);
    res
}

/// The JSON text that tells clients that the list of tools has changed.
pub fn tools_list_changed() -> (res: String)
    ensures
        json_value(res@) matches Some(v) && is_notification(v, TOOLS_LIST_CHANGED@) && json_text(v)
            == Some(res@),
{
    let v = notification(TOOLS_LIST_CHANGED);
    proof {
        lemma_names();
        assert(is_report(v));
    }
    json::report_text(&v)
}

/// Sends `json` to the clients that listen for server-sent events, once to each, and
/// forgets those that are gone.
pub fn notify_sse(senders: &mut Vec<Sink<Event>>, json: &str) -> (round: Round<Event>)
    ensures
        exists|offered: Seq<Sink<Event>>|
            {
                &&& #[trigger] is_event_round(old(senders)@, offered, json@, round.outcomes@)
                &&& final(senders)@ == still_open(offered, round.outcomes@)
                &&& round.gone@ == gone(offered, round.outcomes@)
            },
{
    let ghost before = senders@;
    let mut outcomes: Vec<Delivery> = Vec::new();
    let mut all: Vec<Sink<Event>> = Vec::new();
    all.append(senders);
    let mut i: usize = 0;
    while i < all.len()
        invariant
            i <= all@.len(),
            outcomes@.len() == i,
            is_event_round(before.take(i as int), all@.take(i as int), json@, outcomes@),
            all@.skip(i as int) == before.skip(i as int),
            all@.len() == before.len(),
        decreases all.len() - i,
    {
        let ghost earlier = all@;
        assert(earlier[i as int] == earlier.skip(i as int)[0]);
        assert(before[i as int] == before.skip(i as int)[0]);
        let outcome = all[i].offer(sse_event(json));
        outcomes.push(outcome);
        proof {
            assert forall|j: int| 0 <= j < i implies #[trigger] all@[j] == earlier.take(
                i as int,
            )[j] && before[j] == before.take(i as int)[j] by {}
            assert(all@.skip(i + 1) =~= earlier.skip(i as int).skip(1));
            assert(before.skip(i + 1) =~= before.skip(i as int).skip(1));
        }
        i += 1;
    }
    proof {
        assert(before.take(i as int) =~= before);
        assert(all@.take(i as int) =~= all@);
    }
    let ghost offered = all@;
    let (kept, dropped) = part_gone(all, &outcomes);
    *senders = kept;
    let round = Round { outcomes, gone: dropped };
    assert(is_event_round(before, offered, json@, round.outcomes@));
    round
}

/// Sends `json` to the transports that take raw lines, once to each, and forgets
/// those that are gone. No sink is waited for, so a full channel cannot hold up the
/// request that caused the notification.
pub fn notify_lines(sinks: &mut Vec<Sink<String>>, json: &str) -> (round: Round<String>)
    ensures
        exists|offered: Seq<Sink<String>>|
            {
                &&& #[trigger] is_line_round(old(sinks)@, offered, json@, round.outcomes@)
                &&& final(sinks)@ == still_open(offered, round.outcomes@)
                &&& round.gone@ == gone(offered, round.outcomes@)
            },
{
    let ghost before = sinks@;
    let mut outcomes: Vec<Delivery> = Vec::new();
    let mut all: Vec<Sink<String>> = Vec::new();
    all.append(sinks);
    let mut i: usize = 0;
    while i < all.len()
        invariant
            i <= all@.len(),
            outcomes@.len() == i,
            is_line_round(before.take(i as int), all@.take(i as int), json@, outcomes@),
            all@.skip(i as int) == before.skip(i as int),
            all@.len() == before.len(),
        decreases all.len() - i,
    {
        let ghost earlier = all@;
        assert(earlier[i as int] == earlier.skip(i as int)[0]);
        assert(before[i as int] == before.skip(i as int)[0]);
        let outcome = all[i].offer(json.to_owned());
        outcomes.push(outcome);
        proof {
            assert forall|j: int| 0 <= j < i implies #[trigger] all@[j] == earlier.take(
                i as int,
            )[j] && before[j] == before.take(i as int)[j] by {}
            assert(all@[i as int].tried().drop_last() =~= before[i as int].tried());
            assert(lines_tried(all@[i as int]) =~= lines_tried(before[i as int]).push(
                (json@, outcome),
            ));
            assert(all@.skip(i + 1) =~= earlier.skip(i as int).skip(1));
            assert(before.skip(i + 1) =~= before.skip(i as int).skip(1));
        }
        i += 1;
    }
    proof {
        assert(before.take(i as int) =~= before);
        assert(all@.take(i as int) =~= all@);
    }
    let ghost offered = all@;
    let (kept, dropped) = part_gone(all, &outcomes);
    *sinks = kept;
    let round = Round { outcomes, gone: dropped };
    assert(is_line_round(before, offered, json@, round.outcomes@));
    round
}

} // verus!
