//! Notifications over channels that are open, full or closed.

use axum::response::sse::Event;
use konnect::mcp::channel::{Delivery, Sink};
use konnect::mcp::notify::{
    notify_lines, notify_sse, part_gone, tools_list_changed, TOOLS_LIST_CHANGED,
};
use tokio::sync::mpsc::channel;

#[test]
fn the_notification_is_one_line_of_json() {
    assert_eq!(TOOLS_LIST_CHANGED, "notifications/tools/list_changed");
    assert_eq!(
        tools_list_changed(),
        "{\"jsonrpc\":\"2.0\",\"method\":\"notifications/tools/list_changed\"}"
    );
}

#[test]
fn sinks_whose_receiver_is_there_are_kept_in_order() {
    let outcomes = vec![Delivery::Taken, Delivery::Closed, Delivery::Full, Delivery::Closed];
    let (kept, gone) = part_gone(vec![1, 2, 3, 4], &outcomes);
    assert_eq!(kept, vec![1, 3]);
    assert_eq!(gone, vec![2, 4]);
    let (none, gone): (Vec<u8>, Vec<u8>) = part_gone(vec![], &vec![]);
    assert!(none.is_empty() && gone.is_empty());
}

#[test]
fn closed_lines_are_forgotten_and_full_ones_are_not() {
    let (open_tx, mut open_rx) = channel::<String>(3);
    let (full_tx, mut full_rx) = channel::<String>(1);
    full_tx.try_send("earlier".to_string()).expect("room");
    let (closed_tx, closed_rx) = channel::<String>(1);
    drop(closed_rx);
    let (last_tx, mut last_rx) = channel::<String>(3);

    let mut sinks = vec![
        Sink::new(open_tx),
        Sink::new(full_tx),
        Sink::new(closed_tx),
        Sink::new(last_tx),
    ];
    let round = notify_lines(&mut sinks, "one");

    assert_eq!(
        round.outcomes,
        vec![Delivery::Taken, Delivery::Full, Delivery::Closed, Delivery::Taken]
    );
    assert_eq!(round.gone.len(), 1);
    assert_eq!(sinks.len(), 3);
    assert_eq!(open_rx.try_recv().expect("a line"), "one");
    assert!(open_rx.try_recv().is_err(), "the line comes once");
    assert_eq!(last_rx.try_recv().expect("a line"), "one");
    assert!(last_rx.try_recv().is_err(), "the line comes once");
    assert_eq!(full_rx.try_recv().expect("a line"), "earlier");
    assert!(full_rx.try_recv().is_err());

    drop(last_rx);
    let round = notify_lines(&mut sinks, "two");
    assert_eq!(round.outcomes, vec![Delivery::Taken, Delivery::Taken, Delivery::Closed]);
    assert_eq!(sinks.len(), 2);
    assert_eq!(open_rx.try_recv().expect("a line"), "two");
    assert_eq!(full_rx.try_recv().expect("a line"), "two");
}

#[test]
fn every_open_line_stays() {
    let (a_tx, mut a_rx) = channel::<String>(2);
    let (b_tx, _b_rx) = channel::<String>(2);
    let mut sinks = vec![Sink::new(a_tx), Sink::new(b_tx)];
    for line in ["one", "two"] {
        let round = notify_lines(&mut sinks, line);
        assert_eq!(round.outcomes, vec![Delivery::Taken, Delivery::Taken]);
        assert!(round.gone.is_empty());
    }
    assert_eq!(sinks.len(), 2);
    assert_eq!(a_rx.try_recv().expect("a line"), "one");
    assert_eq!(a_rx.try_recv().expect("a line"), "two");
}

#[test]
fn events_carry_the_notification() {
    let (open_tx, mut open_rx) = channel::<Event>(2);
    let (closed_tx, closed_rx) = channel::<Event>(1);
    drop(closed_rx);
    let (full_tx, _full_rx) = channel::<Event>(1);
    full_tx.try_send(Event::default()).expect("room");
    let mut senders = vec![Sink::new(closed_tx), Sink::new(open_tx), Sink::new(full_tx)];

    let round = notify_sse(&mut senders, "{\"a\":1}");

    assert_eq!(round.outcomes, vec![Delivery::Closed, Delivery::Taken, Delivery::Full]);
    assert_eq!(round.gone.len(), 1);
    assert_eq!(senders.len(), 2);
    let event = open_rx.try_recv().expect("an event");
    assert_eq!(
        format!("{:?}", event),
        format!("{:?}", Event::default().data("{\"a\":1}"))
    );
    assert!(format!("{:?}", event).contains("data: "));
    assert!(open_rx.try_recv().is_err(), "the event comes once");

    let round = notify_sse(&mut senders, "next");
    assert_eq!(round.outcomes, vec![Delivery::Taken, Delivery::Full]);
}

#[test]
fn nobody_listens() {
    let mut senders = vec![];
    let round = notify_sse(&mut senders, "x");
    assert!(round.outcomes.is_empty() && round.gone.is_empty());
    let mut sinks = vec![];
    let round = notify_lines(&mut sinks, "x");
    assert!(round.outcomes.is_empty() && round.gone.is_empty());
}
