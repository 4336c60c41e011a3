//! What holds of the monitor as a whole.

pub mod gauges;
pub mod history;
pub mod initial;
pub mod lines;
pub mod machine;
pub mod requests;
pub mod series;
pub mod universe;

use crate::metrics::{
    law_after_concat, law_update_local, sample_of, Family, Published, Sample, SeriesView, UpdateView,
};
use crate::model::{
    DeviceConfig, Event, EventError, EventKind, InputValue, InputValueType, TimestampedInputValue,
};
use crate::monitor::{device_entries, universe_entries, Delivery, MonitorView};
use crate::query::HistoryQuery;
use crate::sensor::{created_series, recent, shown_history, Message, SensorView};
use crate::system::{
    interface_updates, load_created, load_updates, memory_updates, memory_used, network_updates,
    stats_updates, temperature_updates, Interface, Memory, NetworkStats, Readings,
};
use vstd::prelude::*;

verus! {

/// The events, out of deliveries, of the input with the given alias.
pub open spec fn events_for<H>(deliveries: Seq<Delivery<H>>, alias: Seq<char>) -> Seq<Event<H>>
    decreases deliveries.len(),
{
    if deliveries.len() == 0 {
        seq![]
    } else {
        let before = events_for(deliveries.drop_last(), alias);
        match deliveries.last() {
            Delivery::Event { alias: of, event, .. } => if of == alias {
                before.push(event)
            } else {
                before
            },
            Delivery::Initial { .. } => before,
        }
    }
}

/// How many of the events brought a value.
pub open spec fn values_in<H>(events: Seq<Event<H>>) -> nat
    decreases events.len(),
{
    if events.len() == 0 {
        0
    } else {
        values_in(events.drop_last()) + if events.last().inner matches Ok(EventKind::Update { .. }) {
            1nat
        } else {
            0nat
        }
    }
}

/// How many of the events brought an error.
pub open spec fn errors_in<H>(events: Seq<Event<H>>) -> nat
    decreases events.len(),
{
    if events.len() == 0 {
        0
    } else {
        errors_in(events.drop_last()) + if events.last().inner is Err {
            1nat
        } else {
            0nat
        }
    }
}

/// The messages, out of deliveries, about the input with the given alias.
pub open spec fn messages_for<H>(deliveries: Seq<Delivery<H>>, alias: Seq<char>) -> Seq<Message<H>>
    decreases deliveries.len(),
{
    if deliveries.len() == 0 {
        seq![]
    } else {
        let before = messages_for(deliveries.drop_last(), alias);
        match deliveries.last() {
            Delivery::Event { alias: of, event, .. } => if of == alias {
                before.push(Message::Event(event))
            } else {
                before
            },
            Delivery::Initial { alias: of, value } => if of == alias {
                before.push(Message::Initial(value))
            } else {
                before
            },
        }
    }
}

/// An input once messages were told of it, one after the other.
pub open spec fn told_all<H>(sensor: SensorView<H>, messages: Seq<Message<H>>) -> SensorView<H>
    decreases messages.len(),
{
    if messages.len() == 0 {
        sensor
    } else {
        told_all(sensor, messages.drop_last()).told(messages.last())
    }
}

/// Whether messages about an input, told one after the other, leave it shown as ok: as the last one
/// says that brought a value or an error. Initial values say nothing, but for the very first
/// message, and that only where nothing was told of the input before. `None` where none of them
/// says anything.
pub open spec fn shown_ok<H>(first: bool, messages: Seq<Message<H>>) -> Option<bool>
    decreases messages.len(),
{
    if messages.len() == 0 {
        None
    } else {
        let before = shown_ok(first, messages.drop_last());
        match messages.last() {
            Message::Event(event) => match event.inner {
                Ok(EventKind::Update { .. }) => Some(true),
                Ok(EventKind::Other) => before,
                Err(_) => Some(false),
            },
            Message::Initial(initial) => if first && messages.len() == 1 {
                Some(initial.value is Ok)
            } else {
                before
            },
        }
    }
}

/// The value that messages about an input, told one after the other, leave shown: the last one
/// that they brought, whatever errors came after it. Initial values count as in [`shown_ok`].
pub open spec fn shown_value<H>(first: bool, messages: Seq<Message<H>>) -> Option<InputValue>
    decreases messages.len(),
{
    if messages.len() == 0 {
        None
    } else {
        let before = shown_value(first, messages.drop_last());
        match messages.last() {
            Message::Event(event) => match event.inner {
                Ok(EventKind::Update { new_value }) => Some(new_value),
                _ => before,
            },
            Message::Initial(initial) => match initial.value {
                Ok(value) if first && messages.len() == 1 => Some(value),
                _ => before,
            },
        }
    }
}

/// The number that shows whether a value is ok.
pub open spec fn ok_sample(ok: bool) -> Sample {
    Sample::Whole(
        if ok {
            1
        } else {
            0
        },
    )
}

/// Whether a gauge shows the number.
pub open spec fn shows(published: Published, series: SeriesView, sample: Sample) -> bool {
    published.gauges.contains_key(series) && published.gauges[series] == sample
}

/// Whether a gauge shows what it did before, where it showed anything; where not, it shows zero
/// from now on if it was created, and still nothing otherwise.
pub open spec fn keeps_gauge(
    before: Published,
    after: Published,
    series: SeriesView,
    created: bool,
) -> bool {
    if before.gauges.contains_key(series) {
        shows(after, series, before.gauges[series])
    } else if created {
        shows(after, series, Sample::Whole(0))
    } else {
        !after.gauges.contains_key(series)
    }
}

/// Whether the same is published of a series.
pub open spec fn same_on(series: SeriesView, a: Published, b: Published) -> bool {
    &&& a.counter(series) == b.counter(series)
    &&& a.gauges.contains_key(series) == b.gauges.contains_key(series)
    &&& a.gauges.contains_key(series) ==> a.gauges[series] == b.gauges[series]
}

/// Dropping old elements before another one is added does not change what is recent.
proof fn lemma_recent_push<T>(s: Seq<T>, n: nat, x: T)
    ensures
        recent(recent(s, n).push(x), n) == recent(s.push(x), n),
{
    assert(recent(recent(s, n).push(x), n) =~= recent(s.push(x), n));
}

/// A delivery keeps the monitor well-formed: no history outgrows its limit.
pub proof fn law_delivery_wf<H>(monitor: MonitorView<H>, delivery: Delivery<H>)
    requires
        monitor.wf(),
    ensures
        monitor.delivered(delivery).wf(),
        monitor.delivered(delivery).limit == monitor.limit,
{
    let after = monitor.delivered(delivery);
    assert forall|alias: Seq<char>| #[trigger] after.sensors.contains_key(alias) implies {
        &&& after.sensors[alias].wf()
        &&& after.sensors[alias].alias == alias
        &&& after.sensors[alias].limit == after.limit
    } by {
        if alias != delivery.alias() || monitor.knows(alias) {
            assert(monitor.sensors.contains_key(alias));
        }
    }
}

/// Deliveries keep the monitor well-formed: no history ever outgrows its limit.
pub proof fn law_deliveries_wf<H>(monitor: MonitorView<H>, deliveries: Seq<Delivery<H>>)
    requires
        monitor.wf(),
    ensures
        monitor.after(deliveries).wf(),
        monitor.after(deliveries).limit == monitor.limit,
    decreases deliveries.len(),
{
    if deliveries.len() > 0 {
        law_deliveries_wf(monitor, deliveries.drop_last());
        law_delivery_wf(monitor.after(deliveries.drop_last()), deliveries.last());
    }
}

/// A delivery leaves every other input as it is. Of its own, it keeps the alias known, and the
/// type of an input that was known before.
pub proof fn law_delivery_local<H>(
    monitor: MonitorView<H>,
    delivery: Delivery<H>,
    alias: Seq<char>,
)
    ensures
        alias != delivery.alias() ==> {
            &&& monitor.delivered(delivery).knows(alias) == monitor.knows(alias)
            &&& monitor.delivered(delivery).sensors[alias] == monitor.sensors[alias]
        },
        monitor.knows(alias) ==> {
            &&& monitor.delivered(delivery).knows(alias)
            &&& monitor.delivered(delivery).sensors[alias].input_type
                == monitor.sensors[alias].input_type
        },
        delivery is Event ==> monitor.delivered(delivery).knows(delivery.alias()),
{
}

/// After deliveries, the inputs are known that were known before or that an event told of, and no
/// others; those that were known before have the type that they had.
pub proof fn law_deliveries_known<H>(
    monitor: MonitorView<H>,
    deliveries: Seq<Delivery<H>>,
    alias: Seq<char>,
)
    ensures
        monitor.after(deliveries).knows(alias) <==> (monitor.knows(alias) || exists|i: int|
            0 <= i < deliveries.len() && (#[trigger] deliveries[i]) is Event
                && deliveries[i].alias() == alias),
        monitor.knows(alias) ==> monitor.after(deliveries).sensors[alias].input_type
            == monitor.sensors[alias].input_type,
    decreases deliveries.len(),
{
    if deliveries.len() > 0 {
        let init = deliveries.drop_last();
        law_deliveries_known(monitor, init, alias);
        law_delivery_local(monitor.after(init), deliveries.last(), alias);
        assert(forall|i: int| 0 <= i < init.len() ==> init[i] == #[trigger] deliveries[i]);
        assert(deliveries[deliveries.len() - 1] == deliveries.last());
        if exists|i: int|
            0 <= i < init.len() && (#[trigger] init[i]) is Event && init[i].alias() == alias {
            let i = choose|i: int|
                0 <= i < init.len() && (#[trigger] init[i]) is Event && init[i].alias() == alias;
            assert(deliveries[i] is Event && deliveries[i].alias() == alias);
        }
    }
}

/// Where there have to be inputs of given aliases, those are known in the end that were before or
/// that are among them, and no others; each one that was known before is the same as before.
pub proof fn law_opened_known<H>(
    monitor: MonitorView<H>,
    entries: Seq<(Seq<char>, InputValueType)>,
    alias: Seq<char>,
)
    ensures
        monitor.opened_all(entries).knows(alias) <==> (monitor.knows(alias) || exists|i: int|
            0 <= i < entries.len() && (#[trigger] entries[i]).0 == alias),
        monitor.knows(alias) ==> monitor.opened_all(entries).sensors[alias]
            == monitor.sensors[alias],
    decreases entries.len(),
{
    if entries.len() > 0 {
        let init = entries.drop_last();
        law_opened_known(monitor, init, alias);
        assert(forall|i: int| 0 <= i < init.len() ==> init[i] == #[trigger] entries[i]);
        assert(entries[entries.len() - 1] == entries.last());
        if exists|i: int| 0 <= i < init.len() && (#[trigger] init[i]).0 == alias {
            let i = choose|i: int| 0 <= i < init.len() && (#[trigger] init[i]).0 == alias;
            assert(entries[i].0 == alias);
        }
    }
}

/// A known input is never replaced: after deliveries it is what it was before, with the messages
/// about it told, one after the other.
pub proof fn law_known_input_stays<H>(
    monitor: MonitorView<H>,
    deliveries: Seq<Delivery<H>>,
    alias: Seq<char>,
)
    requires
        monitor.knows(alias),
    ensures
        monitor.after(deliveries).knows(alias),
        monitor.after(deliveries).sensors[alias] == told_all(
            monitor.sensors[alias],
            messages_for(deliveries, alias),
        ),
    decreases deliveries.len(),
{
    if deliveries.len() > 0 {
        let init = deliveries.drop_last();
        law_known_input_stays(monitor, init, alias);
        let messages = messages_for(init, alias);
        match deliveries.last() {
            Delivery::Event { event, .. } => {
                assert(messages.push(Message::Event(event)).drop_last() =~= messages);
            },
            Delivery::Initial { value, .. } => {
                assert(messages.push(Message::Initial(value)).drop_last() =~= messages);
            },
        }
    }
}

/// An input that was not known has the type that the first event about it named.
pub proof fn law_first_event_names_the_type<H>(
    monitor: MonitorView<H>,
    deliveries: Seq<Delivery<H>>,
    i: int,
)
    requires
        0 <= i < deliveries.len(),
        deliveries[i] is Event,
        !monitor.knows(deliveries[i].alias()),
        forall|j: int|
            0 <= j < i && (#[trigger] deliveries[j]) is Event ==> deliveries[j].alias()
                != deliveries[i].alias(),
    ensures
        monitor.after(deliveries).knows(deliveries[i].alias()),
        monitor.after(deliveries).sensors[deliveries[i].alias()].input_type
            == deliveries[i]->input_type,
    decreases deliveries.len(),
{
    let alias = deliveries[i].alias();
    let init = deliveries.drop_last();
    if i < init.len() {
        law_first_event_names_the_type(monitor, init, i);
        law_delivery_local(monitor.after(init), deliveries.last(), alias);
    } else {
        law_deliveries_known(monitor, init, alias);
        assert(forall|j: int| 0 <= j < init.len() ==> init[j] == #[trigger] deliveries[j]);
        assert(!monitor.after(init).knows(alias));
    }
}

/// What is told of different inputs can be told in any order: the inputs come out the same, and
/// each delivery publishes the same.
pub proof fn law_deliveries_commute<H>(
    monitor: MonitorView<H>,
    first: Delivery<H>,
    second: Delivery<H>,
)
    requires
        first.alias() != second.alias(),
    ensures
        monitor.delivered(first).delivered(second) == monitor.delivered(second).delivered(first),
        monitor.delivered(first).published_by(second) == monitor.published_by(second),
{
    let one = monitor.delivered(first).delivered(second);
    let other = monitor.delivered(second).delivered(first);
    assert(one.sensors =~= other.sensors);
    assert(monitor.delivered(first).published_by(second) =~= monitor.published_by(second));
}

/// The history of an input holds the last events that were delivered of it, in their order, as
/// many as its limit allows; what is delivered of other inputs, and initial values, leave no
/// trace in it.
pub proof fn law_history_is_recent_events<H>(
    monitor: MonitorView<H>,
    deliveries: Seq<Delivery<H>>,
    alias: Seq<char>,
)
    requires
        monitor.wf(),
    ensures
        monitor.after(deliveries).history_of(alias) == recent(
            monitor.history_of(alias) + events_for(deliveries, alias),
            monitor.limit,
        ),
    decreases deliveries.len(),
{
    let held = monitor.history_of(alias);
    if deliveries.len() == 0 {
        if monitor.knows(alias) {
            assert(monitor.sensors.contains_key(alias));
        }
        assert(held + events_for(deliveries, alias) =~= held);
    } else {
        let init = deliveries.drop_last();
        let before = monitor.after(init);
        law_history_is_recent_events(monitor, init, alias);
        law_deliveries_wf(monitor, init);
        match deliveries.last() {
            Delivery::Event { alias: of, input_type, event } => {
                if of == alias {
                    if before.knows(alias) {
                        assert(before.sensors.contains_key(alias));
                    }
                    let all = held + events_for(init, alias);
                    lemma_recent_push(all, monitor.limit, event);
                    assert(all.push(event) =~= held + events_for(deliveries, alias));
                }
            },
            Delivery::Initial { .. } => {},
        }
    }
}

/// Once something was told of an input, the value that it was last known to have is not taken
/// in any more.
pub proof fn law_initial_value_comes_first<H>(
    monitor: MonitorView<H>,
    delivery: Delivery<H>,
    value: TimestampedInputValue,
)
    requires
        monitor.delivered(delivery).knows(delivery.alias()),
    ensures
        ({
            let after = monitor.delivered(delivery);
            let initial = Delivery::<H>::Initial { alias: delivery.alias(), value };
            &&& after.published_by(initial) == Seq::<UpdateView>::empty()
            &&& after.delivered(initial) == after
        }),
{
    let after = monitor.delivered(delivery);
    let initial = Delivery::<H>::Initial { alias: delivery.alias(), value };
    assert(after.delivered(initial) =~= after);
}

/// An event is read back: it is the last one of the history that is shown next.
pub proof fn law_event_is_read_back<H: Clone>(
    monitor: MonitorView<H>,
    alias: Seq<char>,
    input_type: InputValueType,
    event: Event<H>,
    shown: Seq<Event<H>>,
    query: HistoryQuery,
)
    requires
        monitor.wf(),
        monitor.limit > 0,
        shown_history(
            monitor.delivered(Delivery::Event { alias, input_type, event }).history_of(alias),
            shown,
            query,
        ),
    ensures
        shown.len() > 0,
        event.shown_as(shown.last(), query.backtraces(), query.causes()),
{
    if monitor.knows(alias) {
        assert(monitor.sensors.contains_key(alias));
    }
    let history = monitor.delivered(
        Delivery::Event { alias, input_type, event },
    ).history_of(alias);
    assert(history.last() == event);
    assert(history[history.len() - 1].shown_as(
        shown[history.len() - 1],
        query.backtraces(),
        query.causes(),
    ));
}

/// A history is shown with the backtraces and causes of its errors where they are asked for, and
/// with none where not; its other events are shown in full either way.
pub proof fn law_details_as_asked<H: Clone>(
    history: Seq<Event<H>>,
    shown: Seq<Event<H>>,
    query: HistoryQuery,
    i: int,
)
    requires
        shown_history(history, shown, query),
        0 <= i < history.len(),
    ensures
        history[i].inner is Err <==> shown[i].inner is Err,
        history[i].inner is Ok ==> shown[i].inner == history[i].inner,
        shown[i].inner is Err ==> {
            let error = history[i].inner->Err_0;
            let shown_error = shown[i].inner->Err_0;
            &&& query.backtraces() ==> shown_error.backtrace == error.backtrace
            &&& !query.backtraces() ==> shown_error.backtrace is None
            &&& query.causes() ==> shown_error.chain@ == error.chain@
            &&& !query.causes() ==> shown_error.chain@.len() == 0
        },
{
    assert(history[i].shown_as(shown[i], query.backtraces(), query.causes()));
}

proof fn lemma_after_push(published: Published, updates: Seq<UpdateView>, update: UpdateView)
    ensures
        published.after(updates.push(update)) == update.apply(published.after(updates)),
{
    assert(updates.push(update).drop_last() =~= updates);
}

/// What three updates leave published.
proof fn lemma_after_three(published: Published, a: UpdateView, b: UpdateView, c: UpdateView)
    ensures
        published.after(seq![a, b, c]) == c.apply(b.apply(a.apply(published))),
        published.after(seq![a, b]) == b.apply(a.apply(published)),
        published.after(seq![a]) == a.apply(published),
        published.after(seq![]) == published,
{
    let none = Seq::<UpdateView>::empty();
    lemma_after_push(published, none, a);
    lemma_after_push(published, none.push(a), b);
    lemma_after_push(published, none.push(a).push(b), c);
    assert(seq![a] =~= none.push(a));
    assert(seq![a, b] =~= none.push(a).push(b));
    assert(seq![a, b, c] =~= none.push(a).push(b).push(c));
}

/// The series of an input are four, and those of another input are others.
proof fn lemma_series_distinct<H>(a: SensorView<H>, b: SensorView<H>)
    ensures
        a.value_series() != a.ok_series(),
        a.updates_ok_series() != a.updates_error_series(),
        a.alias != b.alias ==> {
            &&& a.updates_ok_series() != b.updates_ok_series()
            &&& a.updates_ok_series() != b.updates_error_series()
            &&& a.updates_error_series() != b.updates_error_series()
            &&& a.updates_error_series() != b.updates_ok_series()
        },
{
    reveal_strlit("ok");
    reveal_strlit("error");
    assert(a.updates_ok_series().labels[1].len() == 2);
    assert(a.updates_error_series().labels[1].len() == 5);
    assert(a.updates_ok_series().labels[0] == a.alias);
    assert(b.updates_ok_series().labels[0] == b.alias);
    assert(a.updates_error_series().labels[0] == a.alias);
    assert(b.updates_error_series().labels[0] == b.alias);
}

/// Making an input known changes no number that is published, and shows zero by its gauges where
/// they showed nothing.
proof fn lemma_created_keeps(published: Published, alias: Seq<char>, input_type: InputValueType)
    ensures
        ({
            let value = SeriesView::single(Family::spec_of_input(input_type), alias);
            let ok = SeriesView::single(Family::InputValueOk, alias);
            let after = published.after(created_series(alias, input_type));
            &&& forall|series: SeriesView|
                after.counter(series) == #[trigger] published.counter(series)
            &&& forall|series: SeriesView|
                #![trigger published.gauges.contains_key(series)]
                #![trigger after.gauges.contains_key(series)]
                keeps_gauge(published, after, series, series == value || series == ok)
        }),
{
    let created = created_series(alias, input_type);
    lemma_after_three(published, created[0], created[1], created[2]);
    let three = seq![created[0], created[1], created[2]];
    lemma_after_push(published, three, created[3]);
    assert(created =~= three.push(created[3]));
}

/// An event publishes what its message publishes, on top of what making its input known leaves,
/// which changes no number.
proof fn lemma_event_published<H>(
    published: Published,
    monitor: MonitorView<H>,
    alias: Seq<char>,
    input_type: InputValueType,
    event: Event<H>,
) -> (opened: Published)
    requires
        monitor.wf(),
    ensures
        ({
            let delivery = Delivery::Event { alias, input_type, event };
            let sensor = monitor.opened(alias, input_type).sensors[alias];
            &&& sensor.alias == alias
            &&& published.after(monitor.published_by(delivery)) == opened.after(
                sensor.published_by(Message::Event(event)),
            )
        }),
        forall|series: SeriesView|
            opened.counter(series) == #[trigger] published.counter(series),
        forall|series: SeriesView|
            #![trigger published.gauges.contains_key(series)]
            #![trigger opened.gauges.contains_key(series)]
            keeps_gauge(
                published,
                opened,
                series,
                !monitor.knows(alias) && ({
                    ||| series == SeriesView::single(Family::spec_of_input(input_type), alias)
                    ||| series == SeriesView::single(Family::InputValueOk, alias)
                }),
            ),
{
    let sensor = monitor.opened(alias, input_type).sensors[alias];
    if monitor.knows(alias) {
        assert(monitor.sensors.contains_key(alias));
    }
    let created = monitor.published_by_opening(alias, input_type);
    law_after_concat(published, created, sensor.published_by(Message::Event(event)));
    lemma_created_keeps(published, alias, input_type);
    published.after(created)
}

/// An event with a new value shows it, and that it is ok, and counts as an update that was ok.
pub proof fn law_value_is_published<H>(
    published: Published,
    monitor: MonitorView<H>,
    alias: Seq<char>,
    input_type: InputValueType,
    event: Event<H>,
    value: InputValue,
)
    requires
        monitor.wf(),
        event.inner == Ok::<EventKind, EventError>(EventKind::Update { new_value: value }),
    ensures
        ({
            let delivery = Delivery::Event { alias, input_type, event };
            let sensor = monitor.delivered(delivery).sensors[alias];
            let after = published.after(monitor.published_by(delivery));
            &&& after.gauges.contains_key(sensor.value_series())
            &&& after.gauges[sensor.value_series()] == sample_of(value)
            &&& after.gauges.contains_key(sensor.ok_series())
            &&& after.gauges[sensor.ok_series()] == Sample::Whole(1)
            &&& after.counter(sensor.updates_ok_series()) == published.counter(
                sensor.updates_ok_series(),
            ) + 1
            &&& after.counter(sensor.updates_error_series()) == published.counter(
                sensor.updates_error_series(),
            )
        }),
{
    let delivery = Delivery::Event { alias, input_type, event };
    let sensor = monitor.delivered(delivery).sensors[alias];
    let opened = lemma_event_published(published, monitor, alias, input_type, event);
    let updates = monitor.opened(alias, input_type).sensors[alias].published_by(
        Message::Event(event),
    );
    lemma_series_distinct(sensor, sensor);
    lemma_after_three(opened, updates[0], updates[1], updates[2]);
    assert(updates =~= seq![updates[0], updates[1], updates[2]]);
}

/// An event with an error shows that the value is not ok, and counts as an update that was an
/// error; the value that was shown before stays, and where there was none, a new input shows zero.
pub proof fn law_error_is_published<H>(
    published: Published,
    monitor: MonitorView<H>,
    alias: Seq<char>,
    input_type: InputValueType,
    event: Event<H>,
)
    requires
        monitor.wf(),
        event.inner is Err,
    ensures
        ({
            let delivery = Delivery::Event { alias, input_type, event };
            let sensor = monitor.delivered(delivery).sensors[alias];
            let after = published.after(monitor.published_by(delivery));
            &&& keeps_gauge(published, after, sensor.value_series(), !monitor.knows(alias))
            &&& after.gauges.contains_key(sensor.ok_series())
            &&& after.gauges[sensor.ok_series()] == Sample::Whole(0)
            &&& after.counter(sensor.updates_error_series()) == published.counter(
                sensor.updates_error_series(),
            ) + 1
            &&& after.counter(sensor.updates_ok_series()) == published.counter(
                sensor.updates_ok_series(),
            )
        }),
{
    let delivery = Delivery::Event { alias, input_type, event };
    let sensor = monitor.delivered(delivery).sensors[alias];
    let opened = lemma_event_published(published, monitor, alias, input_type, event);
    let updates = monitor.opened(alias, input_type).sensors[alias].published_by(
        Message::Event(event),
    );
    lemma_series_distinct(sensor, sensor);
    lemma_after_three(opened, updates[0], updates[1], updates[1]);
    assert(updates =~= seq![updates[0], updates[1]]);
}

/// An event of a known input that brings neither a value nor an error publishes nothing.
pub proof fn law_other_events_publish_nothing<H>(
    monitor: MonitorView<H>,
    alias: Seq<char>,
    input_type: InputValueType,
    event: Event<H>,
)
    requires
        monitor.knows(alias),
        event.inner == Ok::<EventKind, EventError>(EventKind::Other),
    ensures
        monitor.published_by(Delivery::Event { alias, input_type, event }) == Seq::<
            UpdateView,
        >::empty(),
{
    assert(monitor.published_by(Delivery::Event { alias, input_type, event }) =~= seq![]);
}

/// A value that an input is last known to have had, taken in before anything else is told of it,
/// shows as the value of an event does, and that it could not be read as an error does; neither
/// counts as an update.
pub proof fn law_initial_value_is_published<H>(
    published: Published,
    monitor: MonitorView<H>,
    alias: Seq<char>,
    value: TimestampedInputValue,
)
    requires
        monitor.wf(),
        monitor.knows(alias),
        monitor.sensors[alias].first,
    ensures
        ({
            let sensor = monitor.sensors[alias];
            let after = published.after(
                monitor.published_by(Delivery::<H>::Initial { alias, value }),
            );
            &&& match value.value {
                Ok(v) => {
                    &&& after.gauges.contains_key(sensor.value_series())
                    &&& after.gauges[sensor.value_series()] == sample_of(v)
                    &&& after.gauges.contains_key(sensor.ok_series())
                    &&& after.gauges[sensor.ok_series()] == Sample::Whole(1)
                },
                Err(_) => {
                    &&& after.gauges.contains_key(sensor.value_series())
                        == published.gauges.contains_key(sensor.value_series())
                    &&& after.gauges[sensor.value_series()]
                        == published.gauges[sensor.value_series()]
                    &&& after.gauges.contains_key(sensor.ok_series())
                    &&& after.gauges[sensor.ok_series()] == Sample::Whole(0)
                },
            }
            &&& after.counters == published.counters
        }),
{
    let sensor = monitor.sensors[alias];
    let updates = sensor.published_by(Message::Initial(value));
    lemma_series_distinct(sensor, sensor);
    lemma_after_three(published, updates[0], updates[1], updates[1]);
    match value.value {
        Ok(_) => {
            assert(updates =~= seq![updates[0], updates[1]]);
        },
        Err(_) => {
            assert(updates =~= seq![updates[0]]);
        },
    }
}

/// What a delivery does to the counters of an input.
proof fn lemma_delivery_counts<H>(
    published: Published,
    monitor: MonitorView<H>,
    delivery: Delivery<H>,
    alias: Seq<char>,
)
    requires
        monitor.wf(),
    ensures
        ({
            let ok = SeriesView::pair(Family::InputUpdates, alias, "ok"@);
            let error = SeriesView::pair(Family::InputUpdates, alias, "error"@);
            let after = published.after(monitor.published_by(delivery));
            let events = events_for(seq![delivery], alias);
            &&& after.counter(ok) == published.counter(ok) + values_in(events)
            &&& after.counter(error) == published.counter(error) + errors_in(events)
        }),
{
    let some = SensorView::<H>::fresh(alias, InputValueType::Binary, 0);
    reveal_with_fuel(events_for, 2);
    reveal_with_fuel(values_in, 2);
    reveal_with_fuel(errors_in, 2);
    assert(seq![delivery].drop_last() =~= seq![]);
    match delivery {
        Delivery::Event { alias: of, input_type, event } => {
            assert(Seq::<Event<H>>::empty().push(event).drop_last() =~= seq![]);
            let sensor = monitor.opened(of, input_type).sensors[of];
            let opened = lemma_event_published(published, monitor, of, input_type, event);
            let updates = sensor.published_by(Message::Event(event));
            lemma_series_distinct(some, sensor);
            lemma_series_distinct(sensor, some);
            lemma_after_three(opened, updates[0], updates[1], updates[2]);
            match event.inner {
                Ok(EventKind::Update { .. }) => {
                    assert(updates =~= seq![updates[0], updates[1], updates[2]]);
                },
                Ok(EventKind::Other) => {
                    assert(updates =~= seq![]);
                },
                Err(_) => {
                    assert(updates =~= seq![updates[0], updates[1]]);
                },
            }
        },
        Delivery::Initial { alias: of, value } => {
            let updates = monitor.published_by(delivery);
            lemma_after_three(published, updates[0], updates[1], updates[1]);
            if updates.len() == 0 {
                assert(updates =~= seq![]);
            } else if updates.len() == 1 {
                assert(updates =~= seq![updates[0]]);
            } else {
                assert(updates =~= seq![updates[0], updates[1]]);
            }
        },
    }
}

/// The counters of an input grow by the number of the events of it that brought a value, and of
/// those that brought an error.
pub proof fn law_updates_are_counted<H>(
    published: Published,
    monitor: MonitorView<H>,
    deliveries: Seq<Delivery<H>>,
    alias: Seq<char>,
)
    requires
        monitor.wf(),
    ensures
        ({
            let ok = SeriesView::pair(Family::InputUpdates, alias, "ok"@);
            let error = SeriesView::pair(Family::InputUpdates, alias, "error"@);
            let after = published.after(monitor.published_by_all(deliveries));
            let events = events_for(deliveries, alias);
            &&& after.counter(ok) == published.counter(ok) + values_in(events)
            &&& after.counter(error) == published.counter(error) + errors_in(events)
        }),
    decreases deliveries.len(),
{
    if deliveries.len() > 0 {
        let init = deliveries.drop_last();
        let last = deliveries.last();
        let before = monitor.after(init);
        law_updates_are_counted(published, monitor, init, alias);
        law_deliveries_wf(monitor, init);
        let middle = published.after(monitor.published_by_all(init));
        law_after_concat(published, monitor.published_by_all(init), before.published_by(last));
        lemma_delivery_counts(middle, before, last, alias);
        reveal_with_fuel(events_for, 2);
        reveal_with_fuel(values_in, 2);
        reveal_with_fuel(errors_in, 2);
        assert(seq![last].drop_last() =~= seq![]);
        assert(seq![last].last() == last);
        if let Delivery::Event { alias: of, event, .. } = last {
            if of == alias {
                let events = events_for(init, alias);
                assert(events.push(event).drop_last() =~= events);
                assert(Seq::<Event<H>>::empty().push(event).drop_last() =~= seq![]);
            }
        }
    }
}

/// What a delivery publishes is about its own input only, and such that the metrics take it.
pub proof fn law_delivery_publishes_its_own<H>(
    monitor: MonitorView<H>,
    delivery: Delivery<H>,
    i: int,
)
    requires
        monitor.wf(),
        0 <= i < monitor.published_by(delivery).len(),
    ensures
        monitor.published_by(delivery)[i].wf(),
        monitor.published_by(delivery)[i].series().labels.len() > 0,
        monitor.published_by(delivery)[i].series().labels[0] == delivery.alias(),
{
    if monitor.knows(delivery.alias()) {
        assert(monitor.sensors.contains_key(delivery.alias()));
    }
}

/// Updates of other series leave a series as it is.
proof fn lemma_after_local(published: Published, updates: Seq<UpdateView>, series: SeriesView)
    requires
        forall|i: int| 0 <= i < updates.len() ==> (#[trigger] updates[i]).series() != series,
    ensures
        published.after(updates).counter(series) == published.counter(series),
        published.after(updates).gauges.contains_key(series) == published.gauges.contains_key(
            series,
        ),
        published.after(updates).gauges[series] == published.gauges[series],
    decreases updates.len(),
{
    if updates.len() > 0 {
        let init = updates.drop_last();
        assert forall|i: int| 0 <= i < init.len() implies (#[trigger] init[i]).series()
            != series by {
            assert(updates[i].series() != series);
        }
        lemma_after_local(published, init, series);
        assert(updates[updates.len() - 1].series() != series);
        law_update_local(published.after(init), updates.last(), series);
    }
}

/// A delivery changes nothing that is published of another input, or of the machine.
pub proof fn law_delivery_leaves_other_series<H>(
    published: Published,
    monitor: MonitorView<H>,
    delivery: Delivery<H>,
    series: SeriesView,
)
    requires
        monitor.wf(),
        series.labels.len() == 0 || series.labels[0] != delivery.alias(),
    ensures
        ({
            let after = published.after(monitor.published_by(delivery));
            &&& after.counter(series) == published.counter(series)
            &&& after.gauges.contains_key(series) == published.gauges.contains_key(series)
            &&& after.gauges[series] == published.gauges[series]
        }),
{
    let updates = monitor.published_by(delivery);
    assert forall|i: int| 0 <= i < updates.len() implies (#[trigger] updates[i]).series()
        != series by {
        law_delivery_publishes_its_own(monitor, delivery, i);
    }
    lemma_after_local(published, updates, series);
}

/// A delivery writes no gauge of a known input but that of its own type and that which shows
/// whether its value is ok.
proof fn lemma_delivery_own_gauge<H>(
    published: Published,
    monitor: MonitorView<H>,
    delivery: Delivery<H>,
    alias: Seq<char>,
    family: Family,
)
    requires
        monitor.wf(),
        monitor.knows(alias),
        family != Family::spec_of_input(monitor.sensors[alias].input_type),
        family != Family::InputValueOk,
    ensures
        ({
            let series = SeriesView::single(family, alias);
            let after = published.after(monitor.published_by(delivery));
            &&& after.gauges.contains_key(series) == published.gauges.contains_key(series)
            &&& after.gauges[series] == published.gauges[series]
        }),
{
    let series = SeriesView::single(family, alias);
    let updates = monitor.published_by(delivery);
    assert(monitor.sensors.contains_key(alias));
    if delivery.alias() != alias {
        assert(series.labels[0] == alias);
        law_delivery_leaves_other_series(published, monitor, delivery, series);
    } else {
        let sensor = monitor.sensors[alias];
        assert(sensor.updates_ok_series().labels.len() == 2);
        assert(sensor.updates_error_series().labels.len() == 2);
        assert(series.labels.len() == 1);
        lemma_after_local(published, updates, series);
    }
}

/// Of the gauges of a known input, deliveries write only the one of its own type and the one which
/// shows whether its value is ok, whatever type events name and whatever values they bring.
pub proof fn law_only_own_gauge_is_written<H>(
    published: Published,
    monitor: MonitorView<H>,
    deliveries: Seq<Delivery<H>>,
    alias: Seq<char>,
    family: Family,
)
    requires
        monitor.wf(),
        monitor.knows(alias),
        family != Family::spec_of_input(monitor.sensors[alias].input_type),
        family != Family::InputValueOk,
    ensures
        ({
            let series = SeriesView::single(family, alias);
            let after = published.after(monitor.published_by_all(deliveries));
            &&& after.gauges.contains_key(series) == published.gauges.contains_key(series)
            &&& after.gauges[series] == published.gauges[series]
        }),
    decreases deliveries.len(),
{
    if deliveries.len() > 0 {
        let init = deliveries.drop_last();
        let before = monitor.after(init);
        law_only_own_gauge_is_written(published, monitor, init, alias, family);
        law_deliveries_wf(monitor, init);
        law_deliveries_known(monitor, init, alias);
        let middle = published.after(monitor.published_by_all(init));
        law_after_concat(
            published,
            monitor.published_by_all(init),
            before.published_by(deliveries.last()),
        );
        lemma_delivery_own_gauge(middle, before, deliveries.last(), alias, family);
    }
}

/// The message of a delivery.
pub open spec fn message_of<H>(delivery: Delivery<H>) -> Message<H> {
    match delivery {
        Delivery::Event { event, .. } => Message::Event(event),
        Delivery::Initial { value, .. } => Message::Initial(value),
    }
}

/// Whether there is an input with that alias of which nothing was told yet.
pub open spec fn untold<H>(monitor: MonitorView<H>, alias: Seq<char>) -> bool {
    monitor.knows(alias) && monitor.sensors[alias].first
}

/// What a delivery to an input does to its gauges.
proof fn lemma_delivery_gauges<H>(
    published: Published,
    monitor: MonitorView<H>,
    delivery: Delivery<H>,
)
    requires
        monitor.wf(),
        monitor.delivered(delivery).knows(delivery.alias()),
    ensures
        ({
            let alias = delivery.alias();
            let messages = seq![message_of(delivery)];
            let sensor = monitor.delivered(delivery).sensors[alias];
            let after = published.after(monitor.published_by(delivery));
            let created = !monitor.knows(alias);
            &&& match shown_ok(untold(monitor, alias), messages) {
                Some(ok) => shows(after, sensor.ok_series(), ok_sample(ok)),
                None => keeps_gauge(published, after, sensor.ok_series(), created),
            }
            &&& match shown_value(untold(monitor, alias), messages) {
                Some(value) => shows(after, sensor.value_series(), sample_of(value)),
                None => keeps_gauge(published, after, sensor.value_series(), created),
            }
        }),
{
    let alias = delivery.alias();
    let messages = seq![message_of(delivery)];
    assert(messages.drop_last() =~= seq![]);
    reveal_with_fuel(shown_ok, 2);
    reveal_with_fuel(shown_value, 2);
    let sensor = monitor.delivered(delivery).sensors[alias];
    if monitor.knows(alias) {
        assert(monitor.sensors.contains_key(alias));
    }
    lemma_series_distinct(sensor, sensor);
    match delivery {
        Delivery::Event { input_type, event, .. } => {
            let opened = lemma_event_published(published, monitor, alias, input_type, event);
            match event.inner {
                Ok(EventKind::Update { new_value }) => {
                    law_value_is_published(published, monitor, alias, input_type, event, new_value);
                },
                Ok(EventKind::Other) => {
                    let updates = monitor.opened(alias, input_type).sensors[alias].published_by(
                        Message::Event(event),
                    );
                    assert(updates =~= seq![]);
                },
                Err(_) => {
                    law_error_is_published(published, monitor, alias, input_type, event);
                },
            }
        },
        Delivery::Initial { value, .. } => {
            if monitor.sensors[alias].first {
                law_initial_value_is_published(published, monitor, alias, value);
            } else {
                assert(monitor.published_by(delivery) =~= seq![]);
            }
        },
    }
}

/// Nothing was told of an input exactly as long as it was so before and there is no message about
/// it; of an input that an event made known, something was.
proof fn lemma_untold<H>(
    monitor: MonitorView<H>,
    deliveries: Seq<Delivery<H>>,
    alias: Seq<char>,
)
    ensures
        untold(monitor.after(deliveries), alias) == (untold(monitor, alias) && messages_for(
            deliveries,
            alias,
        ).len() == 0),
    decreases deliveries.len(),
{
    if deliveries.len() > 0 {
        lemma_untold(monitor, deliveries.drop_last(), alias);
    }
}

/// As long as an input is not known, nothing is shown of it that was not before.
proof fn lemma_unknown_untouched<H>(
    published: Published,
    monitor: MonitorView<H>,
    deliveries: Seq<Delivery<H>>,
    alias: Seq<char>,
    series: SeriesView,
)
    requires
        monitor.wf(),
        !monitor.after(deliveries).knows(alias),
        series.labels.len() > 0,
        series.labels[0] == alias,
    ensures
        !monitor.knows(alias),
        shown_ok(false, messages_for(deliveries, alias)) is None,
        shown_value(false, messages_for(deliveries, alias)) is None,
        keeps_gauge(
            published,
            published.after(monitor.published_by_all(deliveries)),
            series,
            false,
        ),
    decreases deliveries.len(),
{
    if deliveries.len() > 0 {
        let init = deliveries.drop_last();
        let last = deliveries.last();
        let before = monitor.after(init);
        law_delivery_local(before, last, alias);
        lemma_unknown_untouched(published, monitor, init, alias, series);
        law_deliveries_wf(monitor, init);
        law_after_concat(published, monitor.published_by_all(init), before.published_by(last));
        let middle = published.after(monitor.published_by_all(init));
        if last.alias() != alias {
            law_delivery_leaves_other_series(middle, before, last, series);
        } else {
            assert(last is Initial);
            assert(before.published_by(last) =~= seq![]);
            let messages = messages_for(init, alias);
            assert(messages.push(message_of(last)).drop_last() =~= messages);
        }
    }
}

/// After any deliveries, the gauges of an input show what the messages about it say: whether the
/// last one that brought a value or an error brought a value, and the last value that was brought,
/// whatever errors came after it. Where no message says so, they show what they did before; those
/// of an input that the deliveries made known start at zero.
pub proof fn law_gauges_show_last_outcome<H>(
    published: Published,
    monitor: MonitorView<H>,
    deliveries: Seq<Delivery<H>>,
    alias: Seq<char>,
)
    requires
        monitor.wf(),
        monitor.after(deliveries).knows(alias),
    ensures
        ({
            let first = untold(monitor, alias);
            let messages = messages_for(deliveries, alias);
            let sensor = monitor.after(deliveries).sensors[alias];
            let after = published.after(monitor.published_by_all(deliveries));
            let created = !monitor.knows(alias);
            &&& match shown_ok(first, messages) {
                Some(ok) => shows(after, sensor.ok_series(), ok_sample(ok)),
                None => keeps_gauge(published, after, sensor.ok_series(), created),
            }
            &&& match shown_value(first, messages) {
                Some(value) => shows(after, sensor.value_series(), sample_of(value)),
                None => keeps_gauge(published, after, sensor.value_series(), created),
            }
        }),
    decreases deliveries.len(),
{
    if deliveries.len() > 0 {
        let init = deliveries.drop_last();
        let last = deliveries.last();
        let before = monitor.after(init);
        let middle = published.after(monitor.published_by_all(init));
        let sensor = monitor.after(deliveries).sensors[alias];
        let messages = messages_for(init, alias);
        let message = message_of(last);
        law_deliveries_wf(monitor, init);
        law_delivery_wf(before, last);
        law_delivery_local(before, last, alias);
        law_after_concat(published, monitor.published_by_all(init), before.published_by(last));
        lemma_untold(monitor, init, alias);
        assert(monitor.after(deliveries).sensors.contains_key(alias));
        assert(sensor.ok_series().labels[0] == alias);
        assert(sensor.value_series().labels[0] == alias);
        if before.knows(alias) {
            assert(before.sensors.contains_key(alias));
            law_gauges_show_last_outcome(published, monitor, init, alias);
        } else {
            lemma_unknown_untouched(published, monitor, init, alias, sensor.ok_series());
            lemma_unknown_untouched(published, monitor, init, alias, sensor.value_series());
        }
        if last.alias() != alias {
            law_delivery_leaves_other_series(middle, before, last, sensor.ok_series());
            law_delivery_leaves_other_series(middle, before, last, sensor.value_series());
        } else {
            lemma_delivery_gauges(middle, before, last);
            assert(messages.push(message).drop_last() =~= messages);
            assert(seq![message].drop_last() =~= seq![]);
            reveal_with_fuel(shown_ok, 2);
            reveal_with_fuel(shown_value, 2);
        }
    }
}

/// From an input just made known, of which nothing was published before: whatever is delivered,
/// its value shows as ok exactly if the last message that says so brought a value, and as not ok
/// otherwise; and its gauge shows the last value that was brought, or zero where there was none.
pub proof fn law_new_input_shows_last_outcome<H>(
    published: Published,
    monitor: MonitorView<H>,
    alias: Seq<char>,
    input_type: InputValueType,
    deliveries: Seq<Delivery<H>>,
)
    requires
        monitor.wf(),
        forall|series: SeriesView| #[trigger]
            published.gauges.contains_key(series) ==> series.labels.len() == 0 || series.labels[0]
                != alias,
    ensures
        ({
            let new = monitor.spawned(alias, input_type);
            let messages = messages_for(deliveries, alias);
            let sensor = SensorView::<H>::fresh(alias, input_type, monitor.limit);
            let after = published.after(
                created_series(alias, input_type) + new.published_by_all(deliveries),
            );
            &&& shows(
                after,
                sensor.ok_series(),
                ok_sample(shown_ok(true, messages) == Some(true)),
            )
            &&& match shown_value(true, messages) {
                Some(value) => shows(after, sensor.value_series(), sample_of(value)),
                None => shows(after, sensor.value_series(), Sample::Whole(0)),
            }
        }),
{
    let new = monitor.spawned(alias, input_type);
    let sensor = SensorView::<H>::fresh(alias, input_type, monitor.limit);
    let created = created_series(alias, input_type);
    assert forall|other: Seq<char>| #[trigger] new.sensors.contains_key(other) implies {
        &&& new.sensors[other].wf()
        &&& new.sensors[other].alias == other
        &&& new.sensors[other].limit == new.limit
    } by {
        if other != alias {
            assert(monitor.sensors.contains_key(other));
        }
    }
    assert(sensor.ok_series().labels[0] == alias);
    assert(sensor.value_series().labels[0] == alias);
    lemma_created_keeps(published, alias, input_type);
    law_after_concat(published, created, new.published_by_all(deliveries));
    law_known_input_stays(new, deliveries, alias);
    law_deliveries_known(new, deliveries, alias);
    law_deliveries_wf(new, deliveries);
    assert(new.after(deliveries).sensors.contains_key(alias));
    assert(!published.gauges.contains_key(sensor.ok_series()));
    assert(!published.gauges.contains_key(sensor.value_series()));
    law_gauges_show_last_outcome(published.after(created), new, deliveries, alias);
}

/// The series of a new input are such that the metrics take them.
pub proof fn law_created_wf(alias: Seq<char>, input_type: InputValueType, i: int)
    requires
        0 <= i < created_series(alias, input_type).len(),
    ensures
        created_series(alias, input_type)[i].wf(),
{
}

/// What a reading of the machine publishes is such that the metrics take it.
pub proof fn law_readings_wf(readings: Readings, i: int)
    requires
        0 <= i < readings.spec_updates().len(),
    ensures
        readings.spec_updates()[i].wf(),
{
    if let Some(interfaces) = readings.interfaces {
        lemma_network_wf(interfaces@);
    }
}

proof fn lemma_network_wf(interfaces: Seq<Interface>)
    ensures
        forall|i: int|
            0 <= i < network_updates(interfaces).len() ==> (#[trigger] network_updates(
                interfaces,
            )[i]).wf(),
    decreases interfaces.len(),
{
    if interfaces.len() > 0 {
        lemma_network_wf(interfaces.drop_last());
        let before = network_updates(interfaces.drop_last());
        let last = interface_updates(interfaces.last());
        let all = network_updates(interfaces);
        assert forall|i: int| 0 <= i < all.len() implies (#[trigger] all[i]).wf() by {
            if i < before.len() {
                assert(all[i] == before[i]);
            } else {
                assert(all[i] == last[i - before.len()]);
            }
        }
    }
}

/// The updates, out of others, of one series.
pub open spec fn about(updates: Seq<UpdateView>, series: SeriesView) -> Seq<UpdateView>
    decreases updates.len(),
{
    if updates.len() == 0 {
        seq![]
    } else {
        let before = about(updates.drop_last(), series);
        if updates.last().series() == series {
            before.push(updates.last())
        } else {
            before
        }
    }
}

/// What is published of a series comes from the updates of it alone.
proof fn lemma_after_about(published: Published, updates: Seq<UpdateView>, series: SeriesView)
    ensures
        same_on(series, published.after(updates), published.after(about(updates, series))),
    decreases updates.len(),
{
    if updates.len() > 0 {
        let init = updates.drop_last();
        let last = updates.last();
        lemma_after_about(published, init, series);
        if last.series() == series {
            lemma_after_push(published, about(init, series), last);
        } else {
            law_update_local(published.after(init), last, series);
        }
    }
}

proof fn lemma_about_concat(first: Seq<UpdateView>, second: Seq<UpdateView>, series: SeriesView)
    ensures
        about(first + second, series) == about(first, series) + about(second, series),
    decreases second.len(),
{
    if second.len() == 0 {
        assert(first + second =~= first);
        assert(about(first, series) + about(second, series) =~= about(first, series));
    } else {
        lemma_about_concat(first, second.drop_last(), series);
        assert((first + second).drop_last() =~= first + second.drop_last());
        assert((first + second).last() == second.last());
        assert(about(first + second, series) =~= about(first, series) + about(second, series));
    }
}

proof fn lemma_about_none(updates: Seq<UpdateView>, series: SeriesView)
    requires
        forall|i: int| 0 <= i < updates.len() ==> (#[trigger] updates[i]).series() != series,
    ensures
        about(updates, series) == Seq::<UpdateView>::empty(),
    decreases updates.len(),
{
    if updates.len() > 0 {
        let init = updates.drop_last();
        assert(updates[updates.len() - 1].series() != series);
        assert forall|i: int| 0 <= i < init.len() implies (#[trigger] init[i]).series()
            != series by {
            assert(updates[i].series() != series);
        }
        lemma_about_none(init, series);
    }
}

/// What was read of the network interface of the given name, as often as it could be read.
pub open spec fn stats_of(interfaces: Seq<Interface>, name: Seq<char>) -> Seq<NetworkStats>
    decreases interfaces.len(),
{
    if interfaces.len() == 0 {
        seq![]
    } else {
        let before = stats_of(interfaces.drop_last(), name);
        match interfaces.last().stats {
            Some(stats) if interfaces.last().name@ == name => before.push(stats),
            _ => before,
        }
    }
}

/// What was read of the network interface that a series is about.
pub open spec fn network_reading(readings: Readings, series: SeriesView) -> Seq<NetworkStats> {
    match readings.interfaces {
        Some(interfaces) if series.labels.len() > 0 => stats_of(interfaces@, series.labels[0]),
        _ => seq![],
    }
}

/// Whether two readings hold the same of what a series is about.
pub open spec fn same_reading(a: Readings, b: Readings, series: SeriesView) -> bool {
    match series.family {
        Family::SystemMemoryUsed => a.memory == b.memory,
        Family::SystemLoadAverage => a.load_average == b.load_average,
        Family::SystemCpuTemperature => a.cpu_temperature == b.cpu_temperature,
        Family::SystemNetworkStats => network_reading(a, series) == network_reading(b, series),
        _ => true,
    }
}

/// A reading in which everything failed.
pub open spec fn failed_reading() -> Readings {
    Readings { memory: None, load_average: None, cpu_temperature: None, interfaces: None }
}

/// The updates, of one series, that readings of one network interface publish.
spec fn stats_about(name: Seq<char>, all: Seq<NetworkStats>, series: SeriesView) -> Seq<UpdateView>
    decreases all.len(),
{
    if all.len() == 0 {
        seq![]
    } else {
        stats_about(name, all.drop_last(), series) + about(stats_updates(name, all.last()), series)
    }
}

proof fn lemma_network_about(interfaces: Seq<Interface>, series: SeriesView)
    ensures
        series.family != Family::SystemNetworkStats || series.labels.len() == 0 ==> about(
            network_updates(interfaces),
            series,
        ) == Seq::<UpdateView>::empty(),
        series.labels.len() > 0 ==> about(network_updates(interfaces), series) == stats_about(
            series.labels[0],
            stats_of(interfaces, series.labels[0]),
            series,
        ),
    decreases interfaces.len(),
{
    if interfaces.len() > 0 {
        let init = interfaces.drop_last();
        let last = interfaces.last();
        let updates = interface_updates(last);
        let before = about(network_updates(init), series);
        lemma_network_about(init, series);
        lemma_about_concat(network_updates(init), updates, series);
        if series.family != Family::SystemNetworkStats || series.labels.len() == 0
            || series.labels[0] != last.name@ || last.stats is None {
            assert forall|i: int| 0 <= i < updates.len() implies (#[trigger] updates[i]).series()
                != series by {
                assert(updates[i].series().family == Family::SystemNetworkStats);
                assert(updates[i].series().labels[0] == last.name@);
                assert(updates[i].series().labels.len() == 2);
            }
            lemma_about_none(updates, series);
            assert(before + Seq::<UpdateView>::empty() =~= before);
        }
        if series.labels.len() > 0 {
            if let Some(stats) = last.stats {
                if last.name@ == series.labels[0] {
                    let all = stats_of(init, series.labels[0]);
                    assert(all.push(stats).drop_last() =~= all);
                }
            }
        }
    }
}

/// What a reading publishes of a series, by the part that it comes from.
proof fn lemma_readings_about(readings: Readings, series: SeriesView)
    ensures
        about(readings.spec_updates(), series) == match series.family {
            Family::SystemMemoryUsed => match readings.memory {
                Some(memory) => about(memory_updates(memory), series),
                None => seq![],
            },
            Family::SystemLoadAverage => match readings.load_average {
                Some(load) => about(load_updates(load), series),
                None => seq![],
            },
            Family::SystemCpuTemperature => match readings.cpu_temperature {
                Some(temperature) => about(temperature_updates(temperature), series),
                None => seq![],
            },
            Family::SystemNetworkStats => if series.labels.len() > 0 {
                stats_about(series.labels[0], network_reading(readings, series), series)
            } else {
                seq![]
            },
            _ => seq![],
        },
{
    let none = Seq::<UpdateView>::empty();
    let memory = match readings.memory {
        Some(memory) => memory_updates(memory),
        None => none,
    };
    let load = match readings.load_average {
        Some(load) => load_updates(load),
        None => none,
    };
    let temperature = match readings.cpu_temperature {
        Some(temperature) => temperature_updates(temperature),
        None => none,
    };
    let network = match readings.interfaces {
        Some(interfaces) => network_updates(interfaces@),
        None => none,
    };
    lemma_about_concat(memory, load, series);
    lemma_about_concat(memory + load, temperature, series);
    lemma_about_concat(memory + load + temperature, network, series);
    if let Some(interfaces) = readings.interfaces {
        lemma_network_about(interfaces@, series);
    }
    if series.family != Family::SystemMemoryUsed {
        lemma_about_none(memory, series);
    }
    if series.family != Family::SystemLoadAverage {
        lemma_about_none(load, series);
    }
    if series.family != Family::SystemCpuTemperature {
        lemma_about_none(temperature, series);
    }
    let parts = about(memory, series) + about(load, series) + about(temperature, series) + about(
        network,
        series,
    );
    assert(about(readings.spec_updates(), series) == parts);
    match series.family {
        Family::SystemMemoryUsed => {
            assert(parts =~= about(memory, series));
        },
        Family::SystemLoadAverage => {
            assert(parts =~= about(load, series));
        },
        Family::SystemCpuTemperature => {
            assert(parts =~= about(temperature, series));
        },
        Family::SystemNetworkStats => {
            assert(parts =~= about(network, series));
        },
        _ => {
            assert(parts =~= none);
        },
    }
}

/// What a reading of the machine publishes of a series depends on the part of it alone that the
/// series is about: whatever else could not be read, it is the same as if nothing had failed.
pub proof fn law_readings_stand_alone(
    published: Published,
    a: Readings,
    b: Readings,
    series: SeriesView,
)
    requires
        same_reading(a, b, series),
    ensures
        same_on(series, published.after(a.spec_updates()), published.after(b.spec_updates())),
{
    lemma_after_about(published, a.spec_updates(), series);
    lemma_after_about(published, b.spec_updates(), series);
    lemma_readings_about(a, series);
    lemma_readings_about(b, series);
}

/// What could not be read stays published as it was.
pub proof fn law_failed_reading_changes_nothing(
    published: Published,
    readings: Readings,
    series: SeriesView,
)
    requires
        same_reading(readings, failed_reading(), series),
    ensures
        same_on(series, published.after(readings.spec_updates()), published),
{
    law_readings_stand_alone(published, readings, failed_reading(), series);
    assert(failed_reading().spec_updates() =~= seq![]);
}

/// The series of the load averages are such that the metrics take them.
pub proof fn law_load_created_wf(i: int)
    requires
        0 <= i < load_created().len(),
    ensures
        load_created()[i].wf(),
{
}

/// Never more memory is used than there is, and what is used and what is free make up the total
/// wherever they can.
pub proof fn law_memory_used(memory: Memory)
    ensures
        memory_used(memory) <= memory.total,
        memory.free <= memory.total ==> memory_used(memory) + memory.free == memory.total,
{
}

/// The inputs and outputs of all devices are those of each device.
pub proof fn law_universe_entries(
    devices: Seq<DeviceConfig>,
    entry: (Seq<char>, InputValueType),
)
    ensures
        universe_entries(devices).contains(entry) <==> exists|d: int|
            0 <= d < devices.len() && device_entries(#[trigger] devices[d]).contains(entry),
    decreases devices.len(),
{
    if devices.len() > 0 {
        let init = devices.drop_last();
        law_universe_entries(init, entry);
        let before = universe_entries(init);
        let last = device_entries(devices.last());
        let all = universe_entries(devices);
        if all.contains(entry) {
            let i = choose|i: int| 0 <= i < all.len() && all[i] == entry;
            if i < before.len() {
                assert(before[i] == entry);
                let d = choose|d: int|
                    0 <= d < init.len() && device_entries(#[trigger] init[d]).contains(entry);
                assert(devices[d] == init[d]);
            } else {
                assert(last[i - before.len()] == entry);
                assert(devices[devices.len() - 1] == devices.last());
            }
        }
        if exists|d: int|
            0 <= d < devices.len() && device_entries(#[trigger] devices[d]).contains(entry) {
            let d = choose|d: int|
                0 <= d < devices.len() && device_entries(#[trigger] devices[d]).contains(entry);
            if d < init.len() {
                assert(init[d] == devices[d]);
                let i = choose|i: int| 0 <= i < before.len() && before[i] == entry;
                assert(all[i] == entry);
            } else {
                let i = choose|i: int| 0 <= i < last.len() && last[i] == entry;
                assert(all[before.len() + i] == entry);
            }
        }
    }
}

/// Of inputs that are made known one after the other, the last one with an alias stays: nothing
/// was told of it yet, and it has the type that it came with.
pub proof fn law_last_spawned_stays<H>(
    monitor: MonitorView<H>,
    entries: Seq<(Seq<char>, InputValueType)>,
    i: int,
)
    requires
        0 <= i < entries.len(),
        forall|j: int| i < j < entries.len() ==> (#[trigger] entries[j]).0 != entries[i].0,
    ensures
        monitor.spawned_all(entries).knows(entries[i].0),
        monitor.spawned_all(entries).sensors[entries[i].0] == SensorView::<H>::fresh(
            entries[i].0,
            entries[i].1,
            monitor.limit,
        ),
    decreases entries.len(),
{
    let init = entries.drop_last();
    lemma_spawned_limit(monitor, init);
    if i < entries.len() - 1 {
        assert forall|j: int| i < j < init.len() implies (#[trigger] init[j]).0 != init[i].0 by {
            assert(entries[j].0 != entries[i].0);
        }
        law_last_spawned_stays(monitor, init, i);
        assert(entries[entries.len() - 1].0 != entries[i].0);
    }
}

proof fn lemma_spawned_limit<H>(
    monitor: MonitorView<H>,
    entries: Seq<(Seq<char>, InputValueType)>,
)
    ensures
        monitor.spawned_all(entries).limit == monitor.limit,
    decreases entries.len(),
{
    if entries.len() > 0 {
        lemma_spawned_limit(monitor, entries.drop_last());
    }
}

/// After inputs are made known, those are known that were before or are among them, and no
/// others.
pub proof fn law_spawned_are_known<H>(
    monitor: MonitorView<H>,
    entries: Seq<(Seq<char>, InputValueType)>,
    alias: Seq<char>,
)
    ensures
        monitor.spawned_all(entries).knows(alias) <==> (monitor.knows(alias) || exists|i: int|
            0 <= i < entries.len() && (#[trigger] entries[i]).0 == alias),
    decreases entries.len(),
{
    if entries.len() > 0 {
        let init = entries.drop_last();
        law_spawned_are_known(monitor, init, alias);
        assert(forall|i: int| 0 <= i < init.len() ==> init[i] == #[trigger] entries[i]);
        assert(entries[entries.len() - 1] == entries.last());
        if exists|i: int| 0 <= i < init.len() && (#[trigger] init[i]).0 == alias {
            let i = choose|i: int| 0 <= i < init.len() && (#[trigger] init[i]).0 == alias;
            assert(entries[i].0 == alias);
        }
    }
}

/// Whether a device has an input or an output with the given alias.
pub open spec fn has_alias(device: DeviceConfig, alias: Seq<char>) -> bool {
    ||| exists|i: int|
        0 <= i < device.inputs@.len() && (#[trigger] device.inputs@[i]).alias@ == alias
    ||| exists|i: int|
        0 <= i < device.outputs@.len() && (#[trigger] device.outputs@[i]).alias@ == alias
}

/// After the configuration of the universe was taken in, the aliases of its inputs and outputs
/// are known, and no others.
pub proof fn law_configured_are_known<H>(
    devices: Seq<DeviceConfig>,
    limit: nat,
    alias: Seq<char>,
)
    ensures
        MonitorView::<H>::empty(limit).spawned_all(universe_entries(devices)).knows(alias)
            <==> exists|d: int| 0 <= d < devices.len() && has_alias(#[trigger] devices[d], alias),
{
    let empty = MonitorView::<H>::empty(limit);
    let entries = universe_entries(devices);
    law_spawned_are_known(empty, entries, alias);
    if empty.spawned_all(entries).knows(alias) {
        let k = choose|k: int| 0 <= k < entries.len() && (#[trigger] entries[k]).0 == alias;
        law_universe_entries(devices, entries[k]);
        assert(entries.contains(entries[k]));
        let d = choose|d: int|
            0 <= d < devices.len() && device_entries(#[trigger] devices[d]).contains(entries[k]);
        let own = device_entries(devices[d]);
        let n = devices[d].inputs@.len() as int;
        let i = choose|i: int| 0 <= i < own.len() && own[i] == entries[k];
        if i < n {
            assert(devices[d].inputs@[i].alias@ == alias);
        } else {
            assert(devices[d].outputs@[i - n].alias@ == alias);
        }
        assert(has_alias(devices[d], alias));
    }
    if exists|d: int| 0 <= d < devices.len() && has_alias(#[trigger] devices[d], alias) {
        let d = choose|d: int| 0 <= d < devices.len() && has_alias(#[trigger] devices[d], alias);
        let device = devices[d];
        let own = device_entries(device);
        let n = device.inputs@.len() as int;
        let at = if exists|i: int|
            0 <= i < device.inputs@.len() && (#[trigger] device.inputs@[i]).alias@ == alias {
            choose|i: int|
                0 <= i < device.inputs@.len() && (#[trigger] device.inputs@[i]).alias@ == alias
        } else {
            n + choose|i: int|
                0 <= i < device.outputs@.len() && (#[trigger] device.outputs@[i]).alias@ == alias
        };
        assert(own[at].0 == alias);
        assert(own.contains(own[at]));
        law_universe_entries(devices, own[at]);
        let k = choose|k: int| 0 <= k < entries.len() && entries[k] == own[at];
        assert(entries[k].0 == alias);
    }
}

} // verus!
