//! What the history of an input holds, and what a reader of it is shown.

use crate::laws::{events_for, law_history_is_recent_events};
use crate::model::{Event, InputValueType};
use crate::monitor::{Delivery, MonitorView};
use crate::query::HistoryQuery;
use crate::sensor::shown_history;
use vstd::prelude::*;

verus! {

/// A monitor without inputs knows no alias, and keeps to the limit that it was given.
pub proof fn law_empty_monitor<H>(limit: nat, alias: Seq<char>)
    ensures
        MonitorView::<H>::empty(limit).limit == limit,
        !MonitorView::<H>::empty(limit).knows(alias),
        MonitorView::<H>::empty(limit).wf(),
{
}

/// Of all events of an input that were ever kept or delivered, the history holds the last ones, as
/// many as the limit allows: its first element is the oldest of these, its last one the newest of
/// all, and each one in between is where it came.
pub proof fn law_history_by_position<H>(
    monitor: MonitorView<H>,
    deliveries: Seq<Delivery<H>>,
    alias: Seq<char>,
)
    requires
        monitor.wf(),
        monitor.after(deliveries).knows(alias),
    ensures
        ({
            let held = if monitor.knows(alias) {
                monitor.sensors[alias].history
            } else {
                Seq::empty()
            };
            let all = held + events_for(deliveries, alias);
            let history = monitor.after(deliveries).sensors[alias].history;
            &&& history.len() == if all.len() <= monitor.limit {
                all.len()
            } else {
                monitor.limit
            }
            &&& forall|i: int|
                0 <= i < history.len() ==> #[trigger] history[i] == all[all.len() - history.len()
                    + i]
        }),
{
    law_history_is_recent_events(monitor, deliveries, alias);
}

/// A single event is added at the end of its history. Where there is room, all the others stay in
/// their places; where there is none, the oldest one leaves and all the others move up by one.
pub proof fn law_event_enters_history<H>(
    monitor: MonitorView<H>,
    delivery: Delivery<H>,
)
    requires
        monitor.wf(),
        monitor.limit > 0,
        delivery is Event,
        monitor.knows(delivery.alias()),
    ensures
        ({
            let before = monitor.sensors[delivery.alias()].history;
            let after = monitor.delivered(delivery).sensors[delivery.alias()].history;
            &&& after.len() > 0
            &&& after[after.len() - 1] == delivery->event
            &&& before.len() < monitor.limit ==> {
                &&& after.len() == before.len() + 1
                &&& forall|i: int| 0 <= i < before.len() ==> #[trigger] after[i] == before[i]
            }
            &&& before.len() == monitor.limit ==> {
                &&& after.len() == before.len()
                &&& forall|i: int|
                    0 <= i < before.len() - 1 ==> #[trigger] after[i] == before[i + 1]
            }
        }),
{
    assert(monitor.sensors.contains_key(delivery.alias()));
}

/// A reader is shown one event for each one that is kept, in the same order: with the same header,
/// the same news, and the details of its error exactly where the query asks for them.
pub proof fn law_reader_is_shown_all<H: Clone>(
    history: Seq<Event<H>>,
    shown: Seq<Event<H>>,
    query: HistoryQuery,
    i: int,
)
    requires
        shown_history(history, shown, query),
        0 <= i < history.len(),
    ensures
        shown.len() == history.len(),
        cloned::<H>(history[i].header, shown[i].header),
        history[i].inner matches Ok(kind) ==> shown[i].inner matches Ok(shown_kind) && shown_kind
            == kind,
        history[i].inner matches Err(error) ==> (shown[i].inner matches Err(shown_error) && {
            &&& query.error_backtraces == Some(true) ==> shown_error.backtrace == error.backtrace
            &&& query.error_backtraces != Some(true) ==> shown_error.backtrace is None
            &&& query.error_causes == Some(true) ==> shown_error.chain@ == error.chain@
            &&& query.error_causes != Some(true) ==> shown_error.chain@.len() == 0
        }),
{
    assert(history[i].shown_as(shown[i], query.backtraces(), query.causes()));
}

/// From an input of which no event is kept: the reader is shown, of the events that were
/// delivered, the last ones, as many as the limit allows, each with its own header.
pub proof fn law_reader_is_shown_recent_events<H: Clone>(
    monitor: MonitorView<H>,
    deliveries: Seq<Delivery<H>>,
    alias: Seq<char>,
    shown: Seq<Event<H>>,
    query: HistoryQuery,
    i: int,
)
    requires
        monitor.wf(),
        monitor.knows(alias) ==> monitor.sensors[alias].history.len() == 0,
        monitor.after(deliveries).knows(alias),
        shown_history(monitor.after(deliveries).sensors[alias].history, shown, query),
        0 <= i < shown.len(),
    ensures
        ({
            let all = events_for(deliveries, alias);
            let event = all[all.len() - shown.len() + i];
            &&& shown.len() == if all.len() <= monitor.limit {
                all.len()
            } else {
                monitor.limit
            }
            &&& cloned::<H>(event.header, shown[i].header)
            &&& event.inner is Err <==> shown[i].inner is Err
            &&& event.inner is Ok ==> shown[i].inner == event.inner
        }),
{
    law_history_by_position(monitor, deliveries, alias);
    let history = monitor.after(deliveries).sensors[alias].history;
    law_reader_is_shown_all(history, shown, query, i);
    let all = events_for(deliveries, alias);
    assert(Seq::<Event<H>>::empty() + all =~= all);
    if monitor.knows(alias) {
        assert(monitor.sensors[alias].history + all =~= all);
    }
}

/// An input that is made known has the alias, the type and the limit that it was given; nothing
/// was told of it, and its history holds nothing. Every other input is as it was.
pub proof fn law_new_input<H>(
    monitor: MonitorView<H>,
    alias: Seq<char>,
    input_type: InputValueType,
    other: Seq<char>,
)
    ensures
        ({
            let spawned = monitor.spawned(alias, input_type);
            let sensor = spawned.sensors[alias];
            &&& spawned.limit == monitor.limit
            &&& spawned.knows(alias)
            &&& sensor.alias == alias
            &&& sensor.input_type == input_type
            &&& sensor.limit == monitor.limit
            &&& sensor.first
            &&& sensor.history.len() == 0
            &&& other != alias ==> spawned.knows(other) == monitor.knows(other)
            &&& other != alias ==> spawned.sensors[other] == monitor.sensors[other]
            &&& !monitor.knows(alias) ==> monitor.opened(alias, input_type) == spawned
            &&& monitor.knows(alias) ==> monitor.opened(alias, input_type) == monitor
        }),
{
}

/// Deliveries are taken in one after the other.
pub proof fn law_deliveries_one_by_one<H>(
    monitor: MonitorView<H>,
    deliveries: Seq<Delivery<H>>,
    delivery: Delivery<H>,
)
    ensures
        monitor.after(Seq::empty()) == monitor,
        monitor.after(deliveries.push(delivery)) == monitor.after(deliveries).delivered(delivery),
        monitor.published_by_all(Seq::empty()).len() == 0,
        monitor.published_by_all(deliveries.push(delivery)) == monitor.published_by_all(deliveries)
            + monitor.after(deliveries).published_by(delivery),
{
    assert(deliveries.push(delivery).drop_last() =~= deliveries);
}

} // verus!
