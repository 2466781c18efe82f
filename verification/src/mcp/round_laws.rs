//! What a round of notifications hands to whom, and how content is counted.

use super::channel::{Delivery, Sink};
use super::json::{distinct_keys, members, members_of, string_value};
use super::notify::{
    event_with_data, gone, is_event_round, is_line_round, is_notification, lines_tried, still_open,
    TOOLS_LIST_CHANGED,
};
use super::protocol::{content_bytes, ToolContent};
use axum::response::sse::Event;
use serde_json::Value;
use vstd::prelude::*;
use vstd::utf8::encode_utf8;

verus! {

/// In a round every sink is offered the line exactly once, whatever the line is: its
/// log grows by one entry, which holds the line and the outcome reported for it. So
/// every outcome that is reported is that of an offer.
pub proof fn each_sink_is_offered_the_line_once(
    before: Seq<Sink<String>>,
    after: Seq<Sink<String>>,
    line: Seq<char>,
    outcomes: Seq<Delivery>,
    i: int,
)
    requires
        is_line_round(before, after, line, outcomes),
        0 <= i < before.len(),
    ensures
        after.len() == before.len(),
        outcomes.len() == before.len(),
        after[i].sender() == before[i].sender(),
        after[i].tried().len() == before[i].tried().len() + 1,
        after[i].tried().drop_last() == before[i].tried(),
        after[i].tried().last().0@ == line,
        after[i].tried().last().1 == outcomes[i],
        lines_tried(after[i]) == lines_tried(before[i]).push((line, outcomes[i])),
{
    let n = before[i].tried().len() as int;
    assert(lines_tried(after[i]).len() == lines_tried(before[i]).len() + 1);
    assert(lines_tried(after[i])[n] == (line, outcomes[i]));
    assert(lines_tried(after[i])[n] == (after[i].tried()[n].0@, after[i].tried()[n].1));
}

/// The lines that were offered to a sink are the texts of the messages of its log, all
/// of them in their order.
pub proof fn lines_are_the_texts_of_the_log(sink: Sink<String>, k: int)
    ensures
        lines_tried(sink).len() == sink.tried().len(),
        0 <= k < sink.tried().len() ==> lines_tried(sink)[k] == (
            sink.tried()[k].0@,
            sink.tried()[k].1,
        ),
{
}

/// In a round every client is offered the event that carries the text exactly once,
/// whatever the text is: its log grows by one entry, which holds that event and the
/// outcome reported for it.
pub proof fn each_client_is_offered_the_event_once(
    before: Seq<Sink<Event>>,
    after: Seq<Sink<Event>>,
    data: Seq<char>,
    outcomes: Seq<Delivery>,
    i: int,
)
    requires
        is_event_round(before, after, data, outcomes),
        0 <= i < before.len(),
    ensures
        after.len() == before.len(),
        outcomes.len() == before.len(),
        after[i].sender() == before[i].sender(),
        after[i].tried() == before[i].tried().push((event_with_data(data), outcomes[i])),
{
}

/// Which sinks stay and which leave is decided sink by sink, by its own outcome alone,
/// and neither changes the order: a sink whose receiver is gone leaves, one that took
/// the message or was full stays.
pub proof fn each_sink_stays_or_leaves_by_its_own_outcome<S>(
    sinks: Seq<S>,
    outcomes: Seq<Delivery>,
    sink: S,
    more: Seq<S>,
    others: Seq<Delivery>,
)
    requires
        sinks.len() == outcomes.len(),
        more.len() == others.len(),
    ensures
        still_open(sinks + more, outcomes + others) == still_open(sinks, outcomes) + still_open(
            more,
            others,
        ),
        gone(sinks + more, outcomes + others) == gone(sinks, outcomes) + gone(more, others),
        still_open(seq![sink], seq![Delivery::Taken]) == seq![sink],
        still_open(seq![sink], seq![Delivery::Full]) == seq![sink],
        still_open(seq![sink], seq![Delivery::Closed]) == Seq::<S>::empty(),
        gone(seq![sink], seq![Delivery::Taken]) == Seq::<S>::empty(),
        gone(seq![sink], seq![Delivery::Full]) == Seq::<S>::empty(),
        gone(seq![sink], seq![Delivery::Closed]) == seq![sink],
    decreases more.len(),
{
    reveal_with_fuel(still_open, 2);
    reveal_with_fuel(gone, 2);
    if more.len() == 0 {
        assert(sinks + more =~= sinks);
        assert(outcomes + others =~= outcomes);
    } else {
        let fewer = more.drop_last();
        let rest = others.drop_last();
        each_sink_stays_or_leaves_by_its_own_outcome(sinks, outcomes, sink, fewer, rest);
        assert((sinks + more).drop_last() =~= sinks + fewer);
        assert((outcomes + others).drop_last() =~= outcomes + rest);
        assert((sinks + more).last() == more.last());
        assert((outcomes + others).last() == others.last());
    }
}

/// The notification that the list of tools has changed is the JSON-RPC object of that
/// method, without an id and without parameters.
pub proof fn the_notification_names_its_method(v: Value, method: Seq<char>)
    requires
        is_notification(v, method),
    ensures
        members(v) matches Some(m) && m.dom() == set!["jsonrpc"@, "method"@] && string_value(
            m["jsonrpc"@],
        ) == Some("2.0"@) && string_value(m["method"@]) == Some(method),
        TOOLS_LIST_CHANGED@ == "notifications/tools/list_changed"@,
{
}

/// Content is counted block by block: a text by the bytes of its UTF-8, an image by
/// those of its data.
pub proof fn content_is_counted_block_by_block(
    content: Seq<ToolContent>,
    more: Seq<ToolContent>,
    text: String,
    mime_type: String,
)
    ensures
        content_bytes(Seq::empty()) == 0,
        content_bytes(content + more) == content_bytes(content) + content_bytes(more),
        content_bytes(seq![ToolContent::Text { text }]) == encode_utf8(text@).len(),
        content_bytes(seq![ToolContent::Image { data: text, mime_type }]) == encode_utf8(
            text@,
        ).len(),
    decreases more.len(),
{
    reveal_with_fuel(content_bytes, 2);
    if more.len() == 0 {
        assert(content + more =~= content);
    } else {
        content_is_counted_block_by_block(content, more.drop_last(), text, mime_type);
        assert((content + more).drop_last() =~= content + more.drop_last());
        assert((content + more).last() == more.last());
    }
}

/// An object made of entries has each entry's value under its key, and no other member.
pub proof fn an_object_has_its_entries(
    entries: Seq<(String, Value)>,
    i: int,
    key: Seq<char>,
)
    requires
        distinct_keys(entries),
    ensures
        0 <= i < entries.len() ==> members_of(entries).contains_key(entries[i].0@) && members_of(
            entries,
        )[entries[i].0@] == entries[i].1,
        members_of(entries).contains_key(key) ==> exists|j: int|
            0 <= j < entries.len() && #[trigger] entries[j].0@ == key,
        forall|a: int, b: int|
            0 <= a < b < entries.len() ==> #[trigger] entries[a].0@ != #[trigger] entries[b].0@,
    decreases entries.len(),
{
    if entries.len() > 0 {
        let fewer = entries.drop_last();
        assert forall|a: int, b: int| 0 <= a < b < fewer.len() implies #[trigger] fewer[a].0@
            != #[trigger] fewer[b].0@ by {
            assert(fewer[a] == entries[a] && fewer[b] == entries[b]);
        }
        an_object_has_its_entries(fewer, i, key);
        let last = entries.len() - 1;
        if 0 <= i < last {
            assert(fewer[i] == entries[i]);
            assert(entries[i].0@ != entries[last].0@);
        }
        if members_of(entries).contains_key(key) {
            if key != entries[last].0@ {
                let j = choose|j: int| 0 <= j < fewer.len() && #[trigger] fewer[j].0@ == key;
                assert(entries[j].0@ == key);
            } else {
                assert(entries[last].0@ == key);
            }
        }
    }
}

} // verus!
