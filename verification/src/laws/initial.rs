//! What becomes of the values that inputs were last known to have.

use crate::laws::gauges::{
    is_number_of, law_gauges_show_what_was_told, ok_gauge, value_gauge,
};
use crate::laws::{
    events_for, law_deliveries_known, law_history_is_recent_events, messages_for, shown_ok,
    shown_value, shows,
};
use crate::metrics::{Published, Sample};
use crate::model::TimestampedInputValue;
use crate::monitor::{initial_deliveries, Delivery, MonitorView};
use crate::sensor::Message;
use vstd::prelude::*;

verus! {

/// How many of the inputs had a value.
pub open spec fn values_known(values: Seq<(String, Option<TimestampedInputValue>)>) -> nat
    decreases values.len(),
{
    if values.len() == 0 {
        0
    } else {
        values_known(values.drop_last()) + if values.last().1 is Some {
            1nat
        } else {
            0nat
        }
    }
}

/// Each value that is known is told of its own input, as it is, in the order of the list; there is
/// one delivery for each of them, and no other.
pub proof fn law_each_known_value_is_delivered<H>(
    values: Seq<(String, Option<TimestampedInputValue>)>,
    i: int,
)
    requires
        0 <= i < values.len(),
    ensures
        initial_deliveries::<H>(values).len() == values_known(values),
        values[i].1 matches Some(value) ==> {
            let at = values_known(values.take(i)) as int;
            &&& 0 <= at < initial_deliveries::<H>(values).len()
            &&& initial_deliveries::<H>(values)[at] == Delivery::<H>::Initial {
                alias: values[i].0@,
                value,
            }
        },
    decreases values.len(),
{
    let init = values.drop_last();
    lemma_delivered_count::<H>(init);
    if i < init.len() {
        law_each_known_value_is_delivered::<H>(init, i);
        assert(init.take(i) =~= values.take(i));
    } else {
        assert(values.take(i) =~= init);
    }
}

proof fn lemma_delivered_count<H>(values: Seq<(String, Option<TimestampedInputValue>)>)
    ensures
        initial_deliveries::<H>(values).len() == values_known(values),
        forall|i: int|
            0 <= i < initial_deliveries::<H>(values).len() ==> (#[trigger] initial_deliveries::<H>(
                values,
            )[i]) is Initial,
    decreases values.len(),
{
    if values.len() > 0 {
        lemma_delivered_count::<H>(values.drop_last());
    }
}

/// Initial values bring no event.
proof fn lemma_initial_no_events<H>(deliveries: Seq<Delivery<H>>, alias: Seq<char>)
    requires
        forall|i: int| 0 <= i < deliveries.len() ==> (#[trigger] deliveries[i]) is Initial,
    ensures
        events_for(deliveries, alias).len() == 0,
    decreases deliveries.len(),
{
    if deliveries.len() > 0 {
        let init = deliveries.drop_last();
        assert(deliveries[deliveries.len() - 1] is Initial);
        assert forall|i: int| 0 <= i < init.len() implies (#[trigger] init[i]) is Initial by {
            assert(deliveries[i] is Initial);
        }
        lemma_initial_no_events(init, alias);
    }
}

/// The messages that the values bring about an input.
proof fn lemma_initial_messages<H>(
    values: Seq<(String, Option<TimestampedInputValue>)>,
    alias: Seq<char>,
)
    ensures
        ({
            let messages = messages_for(initial_deliveries::<H>(values), alias);
            &&& forall|k: int| 0 <= k < messages.len() ==> (#[trigger] messages[k]) is Initial
            &&& (forall|k: int|
                0 <= k < values.len() && (#[trigger] values[k]).0@ == alias ==> values[k].1 is None)
                ==> messages.len() == 0
        }),
    decreases values.len(),
{
    if values.len() > 0 {
        let init = values.drop_last();
        lemma_initial_messages::<H>(init, alias);
        let before = initial_deliveries::<H>(init);
        if let Some(value) = values.last().1 {
            let delivery = Delivery::<H>::Initial { alias: values.last().0@, value };
            assert(before.push(delivery).drop_last() =~= before);
            assert(values[values.len() - 1] == values.last());
        }
        if forall|k: int|
            0 <= k < values.len() && (#[trigger] values[k]).0@ == alias ==> values[k].1 is None {
            assert forall|k: int|
                0 <= k < init.len() && (#[trigger] init[k]).0@ == alias implies init[k].1 is None by {
                assert(values[k] == init[k]);
            }
            assert(values[values.len() - 1] == values.last());
        }
    }
}

/// The first message about an input is the first value that is known of it.
proof fn lemma_first_initial_message<H>(
    values: Seq<(String, Option<TimestampedInputValue>)>,
    i: int,
)
    requires
        0 <= i < values.len(),
        values[i].1 is Some,
        forall|k: int|
            0 <= k < i && (#[trigger] values[k]).0@ == values[i].0@ ==> values[k].1 is None,
    ensures
        ({
            let messages = messages_for(initial_deliveries::<H>(values), values[i].0@);
            &&& messages.len() > 0
            &&& messages[0] == Message::<H>::Initial(values[i].1->0)
        }),
    decreases values.len(),
{
    let alias = values[i].0@;
    let init = values.drop_last();
    let before = initial_deliveries::<H>(init);
    if let Some(value) = values.last().1 {
        let delivery = Delivery::<H>::Initial { alias: values.last().0@, value };
        assert(before.push(delivery).drop_last() =~= before);
    }
    if i < init.len() {
        assert forall|k: int|
            0 <= k < i && (#[trigger] init[k]).0@ == init[i].0@ implies init[k].1 is None by {
            assert(values[k] == init[k]);
        }
        lemma_first_initial_message::<H>(init, i);
    } else {
        assert forall|k: int|
            0 <= k < init.len() && (#[trigger] init[k]).0@ == alias implies init[k].1 is None by {
            assert(values[k] == init[k]);
        }
        lemma_initial_messages::<H>(init, alias);
    }
}

/// Of initial values alone, the first one is shown.
proof fn lemma_first_initial_shows<H>(messages: Seq<Message<H>>)
    requires
        messages.len() > 0,
        forall|k: int| 0 <= k < messages.len() ==> (#[trigger] messages[k]) is Initial,
    ensures
        ({
            let value = messages[0]->Initial_0.value;
            &&& shown_ok(true, messages) == Some(value is Ok)
            &&& value matches Ok(v) ==> shown_value(true, messages) == Some(v)
            &&& value is Err ==> shown_value(true, messages) is None
        }),
    decreases messages.len(),
{
    reveal_with_fuel(shown_ok, 2);
    reveal_with_fuel(shown_value, 2);
    let init = messages.drop_last();
    assert(messages[messages.len() - 1] is Initial);
    if init.len() > 0 {
        assert forall|k: int| 0 <= k < init.len() implies (#[trigger] init[k]) is Initial by {
            assert(messages[k] is Initial);
        }
        lemma_first_initial_shows(init);
    }
}

/// The first value that is known of an input of which nothing was told yet is shown, whatever
/// the input measures: as that value, and as ok; and where it could not be read, as not ok.
pub proof fn law_first_known_value_is_shown<H>(
    published: Published,
    monitor: MonitorView<H>,
    values: Seq<(String, Option<TimestampedInputValue>)>,
    i: int,
)
    requires
        monitor.wf(),
        0 <= i < values.len(),
        values[i].1 is Some,
        monitor.knows(values[i].0@),
        monitor.sensors[values[i].0@].first,
        forall|k: int|
            0 <= k < i && (#[trigger] values[k]).0@ == values[i].0@ ==> values[k].1 is None,
    ensures
        ({
            let alias = values[i].0@;
            let gauge = value_gauge(alias, monitor.sensors[alias].input_type);
            let after = published.after(
                monitor.published_by_all(initial_deliveries::<H>(values)),
            );
            match values[i].1->0.value {
                Ok(value) => {
                    &&& shows(after, ok_gauge(alias), Sample::Whole(1))
                    &&& after.gauges.contains_key(gauge)
                    &&& is_number_of(after.gauges[gauge], value)
                },
                Err(_) => shows(after, ok_gauge(alias), Sample::Whole(0)),
            }
        }),
{
    let alias = values[i].0@;
    let deliveries = initial_deliveries::<H>(values);
    lemma_first_initial_message::<H>(values, i);
    lemma_initial_messages::<H>(values, alias);
    lemma_first_initial_shows(messages_for(deliveries, alias));
    law_deliveries_known(monitor, deliveries, alias);
    law_gauges_show_what_was_told(published, monitor, deliveries, alias);
}

/// Taking in the values that inputs were last known to have makes no input known, replaces none,
/// and leaves every history as it is.
pub proof fn law_initial_values_keep_inputs<H>(
    monitor: MonitorView<H>,
    values: Seq<(String, Option<TimestampedInputValue>)>,
    alias: Seq<char>,
)
    requires
        monitor.wf(),
    ensures
        ({
            let after = monitor.after(initial_deliveries::<H>(values));
            &&& after.knows(alias) == monitor.knows(alias)
            &&& monitor.knows(alias) ==> {
                &&& after.sensors[alias].input_type == monitor.sensors[alias].input_type
                &&& after.sensors[alias].history == monitor.sensors[alias].history
            }
        }),
{
    let deliveries = initial_deliveries::<H>(values);
    lemma_delivered_count::<H>(values);
    law_deliveries_known(monitor, deliveries, alias);
    lemma_initial_no_events(deliveries, alias);
    law_history_is_recent_events(monitor, deliveries, alias);
    if monitor.knows(alias) {
        assert(monitor.sensors.contains_key(alias));
        assert(monitor.history_of(alias) + events_for(deliveries, alias)
            =~= monitor.history_of(alias));
    }
}

} // verus!
