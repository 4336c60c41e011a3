//! What Prometheus is shown of the inputs.

use crate::laws::{
    errors_in, events_for, keeps_gauge, law_deliveries_wf, law_delivery_local,
    law_gauges_show_last_outcome, law_updates_are_counted, lemma_after_local, messages_for,
    same_on, shown_ok, shown_value, shows, untold, values_in,
};
use crate::metrics::{law_after_concat, sample_of, Family, Published, Sample, SeriesView};
use crate::model::{InputValue, InputValueType};
use crate::monitor::{Delivery, MonitorView};
use vstd::prelude::*;

verus! {

/// The gauge that shows the values of an input of the given type.
pub open spec fn value_gauge(alias: Seq<char>, input_type: InputValueType) -> SeriesView {
    SeriesView {
        family: match input_type {
            InputValueType::Binary => Family::InputBinary,
            InputValueType::Temperature => Family::InputTemperature,
            InputValueType::Humidity => Family::InputHumidity,
            InputValueType::Pressure => Family::InputPressure,
            InputValueType::Gas => Family::InputGas,
            InputValueType::Continuous => Family::InputContinuous,
        },
        labels: seq![alias],
    }
}

/// The gauge that shows whether the value of an input is ok.
pub open spec fn ok_gauge(alias: Seq<char>) -> SeriesView {
    SeriesView { family: Family::InputValueOk, labels: seq![alias] }
}

/// The counter of the updates of an input that brought a value.
pub open spec fn ok_counter(alias: Seq<char>) -> SeriesView {
    SeriesView { family: Family::InputUpdates, labels: seq![alias, "ok"@] }
}

/// The counter of the updates of an input that brought an error.
pub open spec fn error_counter(alias: Seq<char>) -> SeriesView {
    SeriesView { family: Family::InputUpdates, labels: seq![alias, "error"@] }
}

/// Whether a series is one of the four of an input.
pub open spec fn is_own_series(
    series: SeriesView,
    alias: Seq<char>,
    input_type: InputValueType,
) -> bool {
    ||| series == value_gauge(alias, input_type)
    ||| series == ok_gauge(alias)
    ||| series == ok_counter(alias)
    ||| series == error_counter(alias)
}

/// Whether a number is the value: bit by bit where it is a floating-point number, one or zero where
/// it is binary, and itself where it is a whole number.
pub open spec fn is_number_of(sample: Sample, value: InputValue) -> bool {
    &&& value matches InputValue::Binary(b) ==> sample == Sample::Whole(
        if b {
            1
        } else {
            0
        },
    )
    &&& value matches InputValue::Temperature(bits) ==> sample == Sample::Double(bits)
    &&& value matches InputValue::Humidity(bits) ==> sample == Sample::Double(bits)
    &&& value matches InputValue::Pressure(bits) ==> sample == Sample::Double(bits)
    &&& value matches InputValue::Gas(bits) ==> sample == Sample::Double(bits)
    &&& value matches InputValue::Continuous(n) ==> sample == Sample::Whole(n)
}

/// The number that stands for a value is that value, with all of its bits.
pub proof fn law_number_is_the_value(bits: u64, n: u16)
    ensures
        sample_of(InputValue::Temperature(bits)) == Sample::Double(bits),
        sample_of(InputValue::Humidity(bits)) == Sample::Double(bits),
        sample_of(InputValue::Pressure(bits)) == Sample::Double(bits),
        sample_of(InputValue::Gas(bits)) == Sample::Double(bits),
        sample_of(InputValue::Continuous(n)) == Sample::Whole(n),
        sample_of(InputValue::Binary(true)) == Sample::Whole(1),
        sample_of(InputValue::Binary(false)) == Sample::Whole(0),
{
}

/// No two values of one type are shown by the same number.
pub proof fn law_numbers_tell_values_apart(a: InputValue, b: InputValue)
    requires
        sample_of(a) == sample_of(b),
    ensures
        a is Binary && b is Binary ==> a == b,
        a is Temperature && b is Temperature ==> a == b,
        a is Humidity && b is Humidity ==> a == b,
        a is Pressure && b is Pressure ==> a == b,
        a is Gas && b is Gas ==> a == b,
        a is Continuous && b is Continuous ==> a == b,
{
}

/// After any deliveries, the gauges of an input show what was told of it: the value gauge of its
/// type shows the last value that was brought, number for number, whatever errors came after it;
/// the other shows one if the last message that brought a value or an error brought a value, and
/// zero if it brought an error. Where there was no such message they show what they did before,
/// and those of a new input zero.
pub proof fn law_gauges_show_what_was_told<H>(
    published: Published,
    monitor: MonitorView<H>,
    deliveries: Seq<Delivery<H>>,
    alias: Seq<char>,
)
    requires
        monitor.wf(),
        monitor.after(deliveries).knows(alias),
    ensures
        ({
            let first = untold(monitor, alias);
            let messages = messages_for(deliveries, alias);
            let value_gauge = value_gauge(
                alias,
                monitor.after(deliveries).sensors[alias].input_type,
            );
            let ok_gauge = ok_gauge(alias);
            let after = published.after(monitor.published_by_all(deliveries));
            let created = !monitor.knows(alias);
            &&& shown_ok(first, messages) == Some(true) ==> shows(
                after,
                ok_gauge,
                Sample::Whole(1),
            )
            &&& shown_ok(first, messages) == Some(false) ==> shows(
                after,
                ok_gauge,
                Sample::Whole(0),
            )
            &&& shown_ok(first, messages) is None ==> keeps_gauge(
                published,
                after,
                ok_gauge,
                created,
            )
            &&& shown_value(first, messages) matches Some(value) ==> {
                &&& after.gauges.contains_key(value_gauge)
                &&& is_number_of(after.gauges[value_gauge], value)
            }
            &&& shown_value(first, messages) is None ==> keeps_gauge(
                published,
                after,
                value_gauge,
                created,
            )
        }),
{
    law_gauges_show_last_outcome(published, monitor, deliveries, alias);
    law_deliveries_wf(monitor, deliveries);
    let sensor = monitor.after(deliveries).sensors[alias];
    assert(monitor.after(deliveries).sensors.contains_key(alias));
    assert(sensor.ok_series() == ok_gauge(alias));
    assert(sensor.value_series() == value_gauge(alias, sensor.input_type));
}

/// The counters of an input grow by the number of the events of it that brought a value, and of
/// those that brought an error.
pub proof fn law_counters_count_outcomes<H>(
    published: Published,
    monitor: MonitorView<H>,
    deliveries: Seq<Delivery<H>>,
    alias: Seq<char>,
)
    requires
        monitor.wf(),
    ensures
        ({
            let after = published.after(monitor.published_by_all(deliveries));
            let events = events_for(deliveries, alias);
            &&& after.counter(ok_counter(alias)) == published.counter(ok_counter(alias))
                + values_in(events)
            &&& after.counter(error_counter(alias)) == published.counter(error_counter(alias))
                + errors_in(events)
        }),
{
    law_updates_are_counted(published, monitor, deliveries, alias);
}

/// A delivery touches none but the four series of its input.
proof fn lemma_delivery_touches_own<H>(
    published: Published,
    monitor: MonitorView<H>,
    delivery: Delivery<H>,
    series: SeriesView,
)
    requires
        monitor.wf(),
        monitor.delivered(delivery).knows(delivery.alias()) ==> !is_own_series(
            series,
            delivery.alias(),
            monitor.delivered(delivery).sensors[delivery.alias()].input_type,
        ),
    ensures
        same_on(series, published.after(monitor.published_by(delivery)), published),
{
    let alias = delivery.alias();
    let updates = monitor.published_by(delivery);
    if monitor.knows(alias) {
        assert(monitor.sensors.contains_key(alias));
    }
    assert forall|i: int| 0 <= i < updates.len() implies (#[trigger] updates[i]).series()
        != series by {
        assert(is_own_series(
            updates[i].series(),
            alias,
            monitor.delivered(delivery).sensors[alias].input_type,
        ));
    }
    lemma_after_local(published, updates, series);
}

/// Deliveries touch nothing that is published but the four series of each input that is told of:
/// the gauge of its own type, the one that shows whether it is ok, and its two counters.
pub proof fn law_deliveries_touch_own_series<H>(
    published: Published,
    monitor: MonitorView<H>,
    deliveries: Seq<Delivery<H>>,
    series: SeriesView,
)
    requires
        monitor.wf(),
        forall|i: int|
            0 <= i < deliveries.len() && monitor.after(deliveries).knows(
                (#[trigger] deliveries[i]).alias(),
            ) ==> !is_own_series(
                series,
                deliveries[i].alias(),
                monitor.after(deliveries).sensors[deliveries[i].alias()].input_type,
            ),
    ensures
        same_on(series, published.after(monitor.published_by_all(deliveries)), published),
    decreases deliveries.len(),
{
    if deliveries.len() > 0 {
        let init = deliveries.drop_last();
        let last = deliveries.last();
        let before = monitor.after(init);
        law_deliveries_wf(monitor, init);
        assert forall|i: int|
            0 <= i < init.len() && before.knows((#[trigger] init[i]).alias()) implies !is_own_series(
            series,
            init[i].alias(),
            before.sensors[init[i].alias()].input_type,
        ) by {
            assert(init[i] == deliveries[i]);
            law_delivery_local(before, last, init[i].alias());
        }
        law_deliveries_touch_own_series(published, monitor, init, series);
        assert(deliveries[deliveries.len() - 1] == last);
        let middle = published.after(monitor.published_by_all(init));
        law_after_concat(published, monitor.published_by_all(init), before.published_by(last));
        lemma_delivery_touches_own(middle, before, last, series);
    }
}

} // verus!
