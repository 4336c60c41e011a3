//! What becomes of the configuration of the universe.

use crate::laws::gauges::{error_counter, is_own_series, ok_counter, ok_gauge, value_gauge};
use crate::laws::{
    has_alias, law_last_spawned_stays, lemma_after_local, lemma_after_push,
    lemma_after_three, lemma_created_keeps, lemma_spawned_limit, same_on,
};
use crate::metrics::{law_after_concat, Published, Sample, SeriesView, UpdateView};
use crate::model::{DeviceConfig, InputValueType};
use crate::monitor::{created_by_all, device_entries, universe_entries, Delivery, MonitorView};
use crate::sensor::{created_series, Message};
use vstd::prelude::*;

verus! {

proof fn lemma_spawned_concat<H>(
    monitor: MonitorView<H>,
    first: Seq<(Seq<char>, InputValueType)>,
    second: Seq<(Seq<char>, InputValueType)>,
)
    ensures
        monitor.spawned_all(first + second) == monitor.spawned_all(first).spawned_all(second),
    decreases second.len(),
{
    if second.len() == 0 {
        assert(first + second =~= first);
    } else {
        lemma_spawned_concat(monitor, first, second.drop_last());
        assert((first + second).drop_last() =~= first + second.drop_last());
        assert((first + second).last() == second.last());
    }
}

/// Inputs with other aliases leave an input as it is.
proof fn lemma_spawned_others<H>(
    monitor: MonitorView<H>,
    entries: Seq<(Seq<char>, InputValueType)>,
    alias: Seq<char>,
)
    requires
        forall|j: int| 0 <= j < entries.len() ==> (#[trigger] entries[j]).0 != alias,
    ensures
        monitor.spawned_all(entries).knows(alias) == monitor.knows(alias),
        monitor.spawned_all(entries).sensors[alias] == monitor.sensors[alias],
    decreases entries.len(),
{
    if entries.len() > 0 {
        let init = entries.drop_last();
        assert(entries[entries.len() - 1].0 != alias);
        assert forall|j: int| 0 <= j < init.len() implies (#[trigger] init[j]).0 != alias by {
            assert(entries[j].0 != alias);
        }
        lemma_spawned_others(monitor, init, alias);
    }
}

/// A device without the alias has no entry of it.
proof fn lemma_no_entry(device: DeviceConfig, alias: Seq<char>)
    requires
        !has_alias(device, alias),
    ensures
        forall|j: int|
            0 <= j < device_entries(device).len() ==> (#[trigger] device_entries(device)[j]).0
                != alias,
{
    let entries = device_entries(device);
    let n = device.inputs@.len() as int;
    assert forall|j: int| 0 <= j < entries.len() implies (#[trigger] entries[j]).0 != alias by {
        if j < n {
            assert(entries[j].0 == device.inputs@[j].alias@);
        } else {
            assert(entries[j].0 == device.outputs@[j - n].alias@);
        }
    }
}

/// The last entry of an alias, at its place in its device, decides.
proof fn lemma_configured<H>(devices: Seq<DeviceConfig>, limit: nat, d: int, at: int)
    requires
        0 <= d < devices.len(),
        0 <= at < device_entries(devices[d]).len(),
        forall|j: int|
            at < j < device_entries(devices[d]).len() ==> (#[trigger] device_entries(
                devices[d],
            )[j]).0 != device_entries(devices[d])[at].0,
        forall|e: int|
            d < e < devices.len() ==> !has_alias(
                #[trigger] devices[e],
                device_entries(devices[d])[at].0,
            ),
    ensures
        ({
            let monitor = MonitorView::<H>::empty(limit).spawned_all(universe_entries(devices));
            let entry = device_entries(devices[d])[at];
            let sensor = monitor.sensors[entry.0];
            &&& monitor.limit == limit
            &&& monitor.knows(entry.0)
            &&& sensor.alias == entry.0
            &&& sensor.input_type == entry.1
            &&& sensor.limit == limit
            &&& sensor.first
            &&& sensor.history.len() == 0
        }),
    decreases devices.len(),
{
    let empty = MonitorView::<H>::empty(limit);
    let init = devices.drop_last();
    let last = device_entries(devices.last());
    let before = empty.spawned_all(universe_entries(init));
    lemma_spawned_concat(empty, universe_entries(init), last);
    lemma_spawned_limit(empty, universe_entries(init));
    lemma_spawned_limit(empty, universe_entries(devices));
    if d < init.len() {
        assert(init[d] == devices[d]);
        assert forall|e: int| d < e < init.len() implies !has_alias(
            #[trigger] init[e],
            device_entries(init[d])[at].0,
        ) by {
            assert(init[e] == devices[e]);
        }
        lemma_configured::<H>(init, limit, d, at);
        let alias = device_entries(devices[d])[at].0;
        assert(!has_alias(devices[devices.len() - 1], alias));
        lemma_no_entry(devices.last(), alias);
        lemma_spawned_others(before, last, alias);
    } else {
        law_last_spawned_stays(before, last, at);
    }
}

/// An input of the configuration is known under its alias, with its own type, whatever it measures,
/// with the limit that was given and without any history, unless something further down in the
/// configuration has the same alias: another input or an output of its device, or a later device.
pub proof fn law_configured_input<H>(devices: Seq<DeviceConfig>, limit: nat, d: int, i: int)
    requires
        0 <= d < devices.len(),
        0 <= i < devices[d].inputs@.len(),
        forall|j: int|
            i < j < devices[d].inputs@.len() ==> (#[trigger] devices[d].inputs@[j]).alias@
                != devices[d].inputs@[i].alias@,
        forall|j: int|
            0 <= j < devices[d].outputs@.len() ==> (#[trigger] devices[d].outputs@[j]).alias@
                != devices[d].inputs@[i].alias@,
        forall|e: int|
            d < e < devices.len() ==> !has_alias(
                #[trigger] devices[e],
                devices[d].inputs@[i].alias@,
            ),
    ensures
        ({
            let monitor = MonitorView::<H>::empty(limit).spawned_all(universe_entries(devices));
            let alias = devices[d].inputs@[i].alias@;
            let sensor = monitor.sensors[alias];
            &&& monitor.limit == limit
            &&& monitor.knows(alias)
            &&& sensor.alias == alias
            &&& sensor.input_type == devices[d].inputs@[i].input_type
            &&& sensor.limit == limit
            &&& sensor.first
            &&& sensor.history.len() == 0
        }),
{
    let entries = device_entries(devices[d]);
    let n = devices[d].inputs@.len() as int;
    assert forall|j: int| i < j < entries.len() implies (#[trigger] entries[j]).0
        != entries[i].0 by {
        if j < n {
            assert(entries[j].0 == devices[d].inputs@[j].alias@);
        } else {
            assert(entries[j].0 == devices[d].outputs@[j - n].alias@);
        }
    }
    lemma_configured::<H>(devices, limit, d, i);
}

/// An output of the configuration is known under its alias as a continuous input, with the limit
/// that was given and without any history, unless something further down in the configuration has
/// the same alias: another output of its device, or a later device.
pub proof fn law_configured_output<H>(devices: Seq<DeviceConfig>, limit: nat, d: int, i: int)
    requires
        0 <= d < devices.len(),
        0 <= i < devices[d].outputs@.len(),
        forall|j: int|
            i < j < devices[d].outputs@.len() ==> (#[trigger] devices[d].outputs@[j]).alias@
                != devices[d].outputs@[i].alias@,
        forall|e: int|
            d < e < devices.len() ==> !has_alias(
                #[trigger] devices[e],
                devices[d].outputs@[i].alias@,
            ),
    ensures
        ({
            let monitor = MonitorView::<H>::empty(limit).spawned_all(universe_entries(devices));
            let alias = devices[d].outputs@[i].alias@;
            let sensor = monitor.sensors[alias];
            &&& monitor.limit == limit
            &&& monitor.knows(alias)
            &&& sensor.alias == alias
            &&& sensor.input_type == InputValueType::Continuous
            &&& sensor.limit == limit
            &&& sensor.first
            &&& sensor.history.len() == 0
        }),
{
    let entries = device_entries(devices[d]);
    let n = devices[d].inputs@.len() as int;
    assert forall|j: int| n + i < j < entries.len() implies (#[trigger] entries[j]).0 != entries[n
        + i].0 by {
        assert(entries[j].0 == devices[d].outputs@[j - n].alias@);
    }
    lemma_configured::<H>(devices, limit, d, n + i);
}

/// Once a configuration was taken in, nothing was told of any input yet: every history is empty,
/// and has the limit that was given.
pub proof fn law_configured_start<H>(devices: Seq<DeviceConfig>, limit: nat, alias: Seq<char>)
    ensures
        ({
            let monitor = MonitorView::<H>::empty(limit).spawned_all(universe_entries(devices));
            &&& monitor.wf()
            &&& monitor.limit == limit
            &&& monitor.knows(alias) ==> {
                &&& monitor.sensors[alias].alias == alias
                &&& monitor.sensors[alias].limit == limit
                &&& monitor.sensors[alias].first
                &&& monitor.sensors[alias].history.len() == 0
            }
        }),
{
    lemma_spawned_fresh::<H>(universe_entries(devices), limit);
}

proof fn lemma_spawned_fresh<H>(entries: Seq<(Seq<char>, InputValueType)>, limit: nat)
    ensures
        ({
            let monitor = MonitorView::<H>::empty(limit).spawned_all(entries);
            &&& monitor.limit == limit
            &&& forall|alias: Seq<char>| #[trigger]
                monitor.sensors.contains_key(alias) ==> {
                    &&& monitor.sensors[alias].alias == alias
                    &&& monitor.sensors[alias].limit == limit
                    &&& monitor.sensors[alias].first
                    &&& monitor.sensors[alias].history.len() == 0
                }
        }),
    decreases entries.len(),
{
    if entries.len() > 0 {
        lemma_spawned_fresh::<H>(entries.drop_last(), limit);
    }
}

/// Whether the four series of an input are published.
pub open spec fn is_published(
    published: Published,
    alias: Seq<char>,
    input_type: InputValueType,
) -> bool {
    &&& published.gauges.contains_key(value_gauge(alias, input_type))
    &&& published.gauges.contains_key(ok_gauge(alias))
    &&& published.counters.contains_key(ok_counter(alias))
    &&& published.counters.contains_key(error_counter(alias))
}

/// What is published, stays published with its numbers, and what is new starts at zero.
pub open spec fn only_adds(before: Published, after: Published) -> bool {
    &&& forall|series: SeriesView| #[trigger] after.counter(series) == before.counter(series)
    &&& forall|series: SeriesView| #[trigger]
        before.counters.contains_key(series) ==> after.counters.contains_key(series)
    &&& forall|series: SeriesView| #[trigger]
        before.gauges.contains_key(series) ==> {
            &&& after.gauges.contains_key(series)
            &&& after.gauges[series] == before.gauges[series]
        }
    &&& forall|series: SeriesView| #[trigger]
        after.gauges.contains_key(series) && !before.gauges.contains_key(series)
            ==> after.gauges[series] == Sample::Whole(0)
}

/// The series of a new input are published, and nothing else changes.
pub proof fn law_new_input_is_published(
    published: Published,
    alias: Seq<char>,
    input_type: InputValueType,
    series: SeriesView,
)
    ensures
        ({
            let after = published.after(created_series(alias, input_type));
            &&& is_published(after, alias, input_type)
            &&& only_adds(published, after)
            &&& !is_own_series(series, alias, input_type) ==> same_on(series, after, published)
        }),
{
    let created = created_series(alias, input_type);
    lemma_created_keeps(published, alias, input_type);
    lemma_after_three(published, created[0], created[1], created[2]);
    let three = seq![created[0], created[1], created[2]];
    lemma_after_push(published, three, created[3]);
    assert(created =~= three.push(created[3]));
    assert(created[0].series() == value_gauge(alias, input_type));
    assert(created[1].series() == ok_gauge(alias));
    assert(created[2].series() == ok_counter(alias));
    assert(created[3].series() == error_counter(alias));
    if !is_own_series(series, alias, input_type) {
        lemma_after_local(published, created, series);
    }
}

/// Where there has to be an input of an alias, a new one is published by its four series, of the
/// type that was named; a known one publishes nothing.
pub proof fn law_opened_is_published<H>(
    published: Published,
    monitor: MonitorView<H>,
    alias: Seq<char>,
    input_type: InputValueType,
)
    ensures
        ({
            let after = published.after(monitor.published_by_opening(alias, input_type));
            &&& !monitor.knows(alias) ==> is_published(after, alias, input_type)
            &&& monitor.knows(alias) ==> after == published
            &&& only_adds(published, after)
        }),
{
    if !monitor.knows(alias) {
        law_new_input_is_published(published, alias, input_type, ok_gauge(alias));
    }
}

/// An event of an unknown input publishes its four series, of the type that the event names.
pub proof fn law_event_publishes_new_input<H>(
    published: Published,
    monitor: MonitorView<H>,
    delivery: Delivery<H>,
)
    requires
        delivery is Event,
        !monitor.knows(delivery.alias()),
    ensures
        is_published(
            published.after(monitor.published_by(delivery)),
            delivery.alias(),
            delivery->input_type,
        ),
{
    let alias = delivery.alias();
    let input_type = delivery->input_type;
    let created = monitor.published_by_opening(alias, input_type);
    let updates = monitor.opened(alias, input_type).sensors[alias].published_by(
        Message::Event(delivery->event),
    );
    law_opened_is_published(published, monitor, alias, input_type);
    law_after_concat(published, created, updates);
    lemma_after_keeps_published(published.after(created), updates);
    assert(is_published(published.after(created), alias, input_type));
}

/// What is published stays so.
proof fn lemma_after_keeps_published(published: Published, updates: Seq<UpdateView>)
    ensures
        forall|series: SeriesView| #[trigger]
            published.gauges.contains_key(series) ==> published.after(
                updates,
            ).gauges.contains_key(series),
        forall|series: SeriesView| #[trigger]
            published.counters.contains_key(series) ==> published.after(
                updates,
            ).counters.contains_key(series),
    decreases updates.len(),
{
    if updates.len() > 0 {
        lemma_after_keeps_published(published, updates.drop_last());
    }
}

/// The series of the inputs that are made known are published, and nothing else changes.
proof fn lemma_created_all(
    published: Published,
    entries: Seq<(Seq<char>, InputValueType)>,
    series: SeriesView,
)
    ensures
        ({
            let after = published.after(created_by_all(entries));
            &&& forall|k: int|
                0 <= k < entries.len() ==> is_published(
                    after,
                    (#[trigger] entries[k]).0,
                    entries[k].1,
                )
            &&& only_adds(published, after)
            &&& (forall|k: int|
                0 <= k < entries.len() ==> !is_own_series(
                    series,
                    (#[trigger] entries[k]).0,
                    entries[k].1,
                )) ==> same_on(series, after, published)
        }),
    decreases entries.len(),
{
    if entries.len() > 0 {
        let init = entries.drop_last();
        let last = entries.last();
        let middle = published.after(created_by_all(init));
        let after = published.after(created_by_all(entries));
        lemma_created_all(published, init, series);
        law_after_concat(published, created_by_all(init), created_series(last.0, last.1));
        law_new_input_is_published(middle, last.0, last.1, series);
        assert(entries[entries.len() - 1] == last);
        assert forall|k: int| 0 <= k < entries.len() implies is_published(
            after,
            (#[trigger] entries[k]).0,
            entries[k].1,
        ) by {
            if k < init.len() {
                assert(init[k] == entries[k]);
                assert(is_published(middle, init[k].0, init[k].1));
            }
        }
        assert(forall|s: SeriesView| #[trigger]
            after.counter(s) == middle.counter(s) && middle.counter(s) == published.counter(s));
        assert forall|s: SeriesView| #[trigger]
            published.gauges.contains_key(s) implies after.gauges.contains_key(s)
            && after.gauges[s] == published.gauges[s] by {
            assert(middle.gauges.contains_key(s));
        }
        assert forall|s: SeriesView| #[trigger]
            published.counters.contains_key(s) implies after.counters.contains_key(s) by {
            assert(middle.counters.contains_key(s));
        }
        assert forall|s: SeriesView| #[trigger]
            after.gauges.contains_key(s) && !published.gauges.contains_key(s) implies after.gauges[s]
            == Sample::Whole(0) by {
            if middle.gauges.contains_key(s) {
                assert(after.gauges[s] == middle.gauges[s]);
            }
        }
        if forall|k: int|
            0 <= k < entries.len() ==> !is_own_series(
                series,
                (#[trigger] entries[k]).0,
                entries[k].1,
            ) {
            assert forall|k: int| 0 <= k < init.len() implies !is_own_series(
                series,
                (#[trigger] init[k]).0,
                init[k].1,
            ) by {
                assert(init[k] == entries[k]);
            }
        }
    }
}

/// Where the entries of a device stand among those of all devices.
proof fn lemma_entry_place(devices: Seq<DeviceConfig>, d: int, at: int) -> (k: int)
    requires
        0 <= d < devices.len(),
        0 <= at < device_entries(devices[d]).len(),
    ensures
        0 <= k < universe_entries(devices).len(),
        universe_entries(devices)[k] == device_entries(devices[d])[at],
    decreases devices.len(),
{
    let init = devices.drop_last();
    if d < init.len() {
        assert(init[d] == devices[d]);
        lemma_entry_place(init, d, at)
    } else {
        universe_entries(init).len() as int + at
    }
}

/// Taking in the configuration publishes the four series of each input, the value gauge being that
/// of its own type, and those of each output, as of a continuous input; all new gauges show zero,
/// and nothing that was published before changes.
pub proof fn law_configured_are_published(
    published: Published,
    devices: Seq<DeviceConfig>,
    d: int,
    i: int,
)
    requires
        0 <= d < devices.len(),
    ensures
        ({
            let after = published.after(created_by_all(universe_entries(devices)));
            &&& 0 <= i < devices[d].inputs@.len() ==> is_published(
                after,
                devices[d].inputs@[i].alias@,
                devices[d].inputs@[i].input_type,
            )
            &&& 0 <= i < devices[d].outputs@.len() ==> is_published(
                after,
                devices[d].outputs@[i].alias@,
                InputValueType::Continuous,
            )
            &&& only_adds(published, after)
        }),
{
    let entries = universe_entries(devices);
    let own = device_entries(devices[d]);
    let n = devices[d].inputs@.len() as int;
    lemma_created_all(published, entries, ok_gauge(seq![]));
    if 0 <= i < devices[d].inputs@.len() {
        let k = lemma_entry_place(devices, d, i);
        assert(own[i] == (devices[d].inputs@[i].alias@, devices[d].inputs@[i].input_type));
        assert(entries[k] == own[i]);
    }
    if 0 <= i < devices[d].outputs@.len() {
        let k = lemma_entry_place(devices, d, n + i);
        assert(own[n + i] == (devices[d].outputs@[i].alias@, InputValueType::Continuous));
        assert(entries[k] == own[n + i]);
    }
}

/// Taking in the configuration touches no series but those of its inputs and outputs.
pub proof fn law_configuration_touches_own_series(
    published: Published,
    devices: Seq<DeviceConfig>,
    series: SeriesView,
)
    requires
        forall|d: int, i: int|
            0 <= d < devices.len() && 0 <= i < devices[d].inputs@.len() ==> !is_own_series(
                series,
                (#[trigger] devices[d].inputs@[i]).alias@,
                devices[d].inputs@[i].input_type,
            ),
        forall|d: int, i: int|
            0 <= d < devices.len() && 0 <= i < devices[d].outputs@.len() ==> !is_own_series(
                series,
                (#[trigger] devices[d].outputs@[i]).alias@,
                InputValueType::Continuous,
            ),
    ensures
        same_on(series, published.after(created_by_all(universe_entries(devices))), published),
{
    let entries = universe_entries(devices);
    assert forall|k: int| 0 <= k < entries.len() implies !is_own_series(
        series,
        (#[trigger] entries[k]).0,
        entries[k].1,
    ) by {
        let (d, at) = lemma_entry_device(devices, k);
        let n = devices[d].inputs@.len() as int;
        if at < n {
            let input = devices[d].inputs@[at];
            assert(entries[k] == (input.alias@, input.input_type));
        } else {
            let output = devices[d].outputs@[at - n];
            assert(entries[k] == (output.alias@, InputValueType::Continuous));
        }
    }
    lemma_created_all(published, entries, series);
}

/// Which device, and where in it, an entry comes from.
proof fn lemma_entry_device(devices: Seq<DeviceConfig>, k: int) -> (r: (int, int))
    requires
        0 <= k < universe_entries(devices).len(),
    ensures
        0 <= r.0 < devices.len(),
        0 <= r.1 < device_entries(devices[r.0]).len(),
        universe_entries(devices)[k] == device_entries(devices[r.0])[r.1],
    decreases devices.len(),
{
    let init = devices.drop_last();
    let n = universe_entries(init).len() as int;
    if k < n {
        let r = lemma_entry_device(init, k);
        assert(init[r.0] == devices[r.0]);
        r
    } else {
        (devices.len() - 1, k - n)
    }
}

} // verus!
