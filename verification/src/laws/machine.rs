//! What Prometheus is shown of the machine.

use crate::laws::{
    law_readings_stand_alone, lemma_after_local, lemma_after_push, lemma_after_three, same_on,
    shows,
};
use crate::metrics::{law_after_concat, Family, Published, Sample, SeriesView, UpdateView};
use crate::system::{
    interface_updates, load_created, load_updates, memory_updates, network_updates,
    stats_updates, temperature_updates, Interface, NetworkStats, Readings,
};
use vstd::prelude::*;

verus! {

/// The gauge of one number of a network interface.
pub open spec fn network_gauge(name: Seq<char>, value: Seq<char>) -> SeriesView {
    SeriesView { family: Family::SystemNetworkStats, labels: seq![name, value] }
}

/// The gauge of the load average over a duration.
pub open spec fn load_gauge(duration: Seq<char>) -> SeriesView {
    SeriesView { family: Family::SystemLoadAverage, labels: seq![duration] }
}

/// The gauge of the memory that is used.
pub open spec fn memory_gauge() -> SeriesView {
    SeriesView { family: Family::SystemMemoryUsed, labels: seq![] }
}

/// The gauge of the temperature of the processor.
pub open spec fn temperature_gauge() -> SeriesView {
    SeriesView { family: Family::SystemCpuTemperature, labels: seq![] }
}

/// Whether a signed gauge shows an unsigned number: as itself where there is room for it, and
/// otherwise less by the whole range, as its bits read when they are taken for signed.
pub open spec fn shows_count(published: Published, series: SeriesView, n: int) -> bool {
    &&& published.gauges.contains_key(series)
    &&& published.gauges[series] is Integer
    &&& n <= i64::MAX ==> published.gauges[series]->Integer_0 == n
    &&& n > i64::MAX ==> published.gauges[series]->Integer_0 == n - 0x1_0000_0000_0000_0000
}

/// Whether the six gauges of a network interface show the six numbers that were read of it.
pub open spec fn shows_stats(published: Published, name: Seq<char>, stats: NetworkStats) -> bool {
    &&& shows_count(published, network_gauge(name, "rx_bytes"@), stats.rx_bytes as int)
    &&& shows_count(published, network_gauge(name, "tx_bytes"@), stats.tx_bytes as int)
    &&& shows_count(published, network_gauge(name, "rx_packets"@), stats.rx_packets as int)
    &&& shows_count(published, network_gauge(name, "tx_packets"@), stats.tx_packets as int)
    &&& shows_count(published, network_gauge(name, "rx_errors"@), stats.rx_errors as int)
    &&& shows_count(published, network_gauge(name, "tx_errors"@), stats.tx_errors as int)
}

/// The six gauges of an interface are different ones.
proof fn lemma_network_gauges_distinct(name: Seq<char>)
    ensures
        ({
            let rb = network_gauge(name, "rx_bytes"@);
            let tb = network_gauge(name, "tx_bytes"@);
            let rp = network_gauge(name, "rx_packets"@);
            let tp = network_gauge(name, "tx_packets"@);
            let re = network_gauge(name, "rx_errors"@);
            let te = network_gauge(name, "tx_errors"@);
            &&& rb != tb && rb != rp && rb != tp && rb != re && rb != te
            &&& tb != rp && tb != tp && tb != re && tb != te
            &&& rp != tp && rp != re && rp != te
            &&& tp != re && tp != te
            &&& re != te
        }),
{
    reveal_strlit("rx_bytes");
    reveal_strlit("tx_bytes");
    reveal_strlit("rx_packets");
    reveal_strlit("tx_packets");
    reveal_strlit("rx_errors");
    reveal_strlit("tx_errors");
    let rb = network_gauge(name, "rx_bytes"@).labels[1];
    let tb = network_gauge(name, "tx_bytes"@).labels[1];
    let rp = network_gauge(name, "rx_packets"@).labels[1];
    let tp = network_gauge(name, "tx_packets"@).labels[1];
    let re = network_gauge(name, "rx_errors"@).labels[1];
    let te = network_gauge(name, "tx_errors"@).labels[1];
    assert(rb.len() == 8 && tb.len() == 8 && rb[0] == 'r' && tb[0] == 't');
    assert(rp.len() == 10 && tp.len() == 10 && rp[0] == 'r' && tp[0] == 't');
    assert(re.len() == 9 && te.len() == 9 && re[0] == 'r' && te[0] == 't');
}

/// What the numbers of a network interface leave shown.
proof fn lemma_stats_shown(published: Published, name: Seq<char>, stats: NetworkStats)
    ensures
        shows_stats(published.after(stats_updates(name, stats)), name, stats),
{
    let u = stats_updates(name, stats);
    let three = seq![u[0], u[1], u[2]];
    lemma_after_three(published, u[0], u[1], u[2]);
    lemma_after_push(published, three, u[3]);
    lemma_after_push(published, three.push(u[3]), u[4]);
    lemma_after_push(published, three.push(u[3]).push(u[4]), u[5]);
    assert(u =~= three.push(u[3]).push(u[4]).push(u[5]));
    lemma_network_gauges_distinct(name);
    assert(u[0].series() == network_gauge(name, "rx_bytes"@));
    assert(u[1].series() == network_gauge(name, "tx_bytes"@));
    assert(u[2].series() == network_gauge(name, "rx_packets"@));
    assert(u[3].series() == network_gauge(name, "tx_packets"@));
    assert(u[4].series() == network_gauge(name, "rx_errors"@));
    assert(u[5].series() == network_gauge(name, "tx_errors"@));
}

/// An interface that is not of that name, or could not be read, leaves its gauges as they are.
proof fn lemma_interface_local(
    published: Published,
    interface: Interface,
    name: Seq<char>,
    value: Seq<char>,
)
    requires
        interface.name@ != name || interface.stats is None,
    ensures
        same_on(
            network_gauge(name, value),
            published.after(interface_updates(interface)),
            published,
        ),
{
    let updates = interface_updates(interface);
    let gauge = network_gauge(name, value);
    assert(gauge.labels[0] == name);
    assert forall|i: int| 0 <= i < updates.len() implies (#[trigger] updates[i]).series()
        != gauge by {
        assert(updates[i].series().labels[0] == interface.name@);
    }
    lemma_after_local(published, updates, gauge);
}

proof fn lemma_network_shown(published: Published, interfaces: Seq<Interface>, i: int)
    requires
        0 <= i < interfaces.len(),
        interfaces[i].stats is Some,
        forall|j: int|
            i < j < interfaces.len() ==> (#[trigger] interfaces[j]).name@ != interfaces[i].name@
                || interfaces[j].stats is None,
    ensures
        shows_stats(
            published.after(network_updates(interfaces)),
            interfaces[i].name@,
            interfaces[i].stats->0,
        ),
    decreases interfaces.len(),
{
    let init = interfaces.drop_last();
    let last = interfaces.last();
    let name = interfaces[i].name@;
    let middle = published.after(network_updates(init));
    law_after_concat(published, network_updates(init), interface_updates(last));
    if i < init.len() {
        assert forall|j: int| i < j < init.len() implies (#[trigger] init[j]).name@ != init[i].name@
            || init[j].stats is None by {
            assert(init[j] == interfaces[j]);
        }
        lemma_network_shown(published, init, i);
        assert(interfaces[interfaces.len() - 1] == last);
        lemma_interface_local(middle, last, name, "rx_bytes"@);
        lemma_interface_local(middle, last, name, "tx_bytes"@);
        lemma_interface_local(middle, last, name, "rx_packets"@);
        lemma_interface_local(middle, last, name, "tx_packets"@);
        lemma_interface_local(middle, last, name, "rx_errors"@);
        lemma_interface_local(middle, last, name, "tx_errors"@);
    } else {
        lemma_stats_shown(middle, name, last.stats->0);
    }
}

/// After a reading, the gauges of a network interface that could be read show what was read of it,
/// number for number, each under its own label. Where the name occurs more than once, the last one
/// that could be read counts.
pub proof fn law_network_is_shown(published: Published, readings: Readings, i: int)
    requires
        readings.interfaces is Some,
        0 <= i < readings.interfaces->0@.len(),
        readings.interfaces->0@[i].stats is Some,
        forall|j: int|
            i < j < readings.interfaces->0@.len() ==> (#[trigger] readings.interfaces->0@[j]).name@
                != readings.interfaces->0@[i].name@ || readings.interfaces->0@[j].stats is None,
    ensures
        ({
            let after = published.after(readings.spec_updates());
            let name = readings.interfaces->0@[i].name@;
            let stats = readings.interfaces->0@[i].stats->0;
            &&& shows_count(after, network_gauge(name, "rx_bytes"@), stats.rx_bytes as int)
            &&& shows_count(after, network_gauge(name, "tx_bytes"@), stats.tx_bytes as int)
            &&& shows_count(after, network_gauge(name, "rx_packets"@), stats.rx_packets as int)
            &&& shows_count(after, network_gauge(name, "tx_packets"@), stats.tx_packets as int)
            &&& shows_count(after, network_gauge(name, "rx_errors"@), stats.rx_errors as int)
            &&& shows_count(after, network_gauge(name, "tx_errors"@), stats.tx_errors as int)
        }),
{
    let interfaces = readings.interfaces->0@;
    let name = interfaces[i].name@;
    let alone = Readings {
        memory: None,
        load_average: None,
        cpu_temperature: None,
        interfaces: readings.interfaces,
    };
    assert(alone.spec_updates() =~= network_updates(interfaces));
    lemma_network_shown(published, interfaces, i);
    law_readings_stand_alone(published, readings, alone, network_gauge(name, "rx_bytes"@));
    law_readings_stand_alone(published, readings, alone, network_gauge(name, "tx_bytes"@));
    law_readings_stand_alone(published, readings, alone, network_gauge(name, "rx_packets"@));
    law_readings_stand_alone(published, readings, alone, network_gauge(name, "tx_packets"@));
    law_readings_stand_alone(published, readings, alone, network_gauge(name, "rx_errors"@));
    law_readings_stand_alone(published, readings, alone, network_gauge(name, "tx_errors"@));
}

/// After a reading of the memory, its gauge shows the bytes that are not free, or zero where more
/// are free than there are.
pub proof fn law_memory_is_shown(published: Published, readings: Readings)
    requires
        readings.memory is Some,
    ensures
        ({
            let after = published.after(readings.spec_updates());
            let memory = readings.memory->0;
            &&& memory.free <= memory.total ==> shows_count(
                after,
                memory_gauge(),
                memory.total - memory.free,
            )
            &&& memory.free > memory.total ==> shows_count(after, memory_gauge(), 0)
        }),
{
    let memory = readings.memory->0;
    let alone = Readings {
        memory: readings.memory,
        load_average: None,
        cpu_temperature: None,
        interfaces: None,
    };
    let updates = memory_updates(memory);
    assert(alone.spec_updates() =~= updates);
    lemma_after_three(published, updates[0], updates[0], updates[0]);
    assert(updates =~= seq![updates[0]]);
    law_readings_stand_alone(published, readings, alone, memory_gauge());
}

/// After a reading of the load averages, the gauge of each duration shows the average over it, bit
/// by bit.
pub proof fn law_load_is_shown(published: Published, readings: Readings)
    requires
        readings.load_average is Some,
    ensures
        ({
            let after = published.after(readings.spec_updates());
            let load = readings.load_average->0;
            &&& shows(after, load_gauge("1m"@), Sample::Single(load.one))
            &&& shows(after, load_gauge("5m"@), Sample::Single(load.five))
            &&& shows(after, load_gauge("15m"@), Sample::Single(load.fifteen))
        }),
{
    let load = readings.load_average->0;
    let alone = Readings {
        memory: None,
        load_average: readings.load_average,
        cpu_temperature: None,
        interfaces: None,
    };
    let updates = load_updates(load);
    assert(alone.spec_updates() =~= updates);
    lemma_after_three(published, updates[0], updates[1], updates[2]);
    assert(updates =~= seq![updates[0], updates[1], updates[2]]);
    lemma_load_gauges_distinct();
    law_readings_stand_alone(published, readings, alone, load_gauge("1m"@));
    law_readings_stand_alone(published, readings, alone, load_gauge("5m"@));
    law_readings_stand_alone(published, readings, alone, load_gauge("15m"@));
}

proof fn lemma_load_gauges_distinct()
    ensures
        load_gauge("1m"@) != load_gauge("5m"@),
        load_gauge("1m"@) != load_gauge("15m"@),
        load_gauge("5m"@) != load_gauge("15m"@),
{
    reveal_strlit("1m");
    reveal_strlit("5m");
    reveal_strlit("15m");
    assert(load_gauge("1m"@).labels[0].len() == 2);
    assert(load_gauge("1m"@).labels[0][0] == '1');
    assert(load_gauge("5m"@).labels[0].len() == 2);
    assert(load_gauge("5m"@).labels[0][0] == '5');
    assert(load_gauge("15m"@).labels[0].len() == 3);
}

/// After a reading of the temperature of the processor, its gauge shows it, bit by bit.
pub proof fn law_temperature_is_shown(published: Published, readings: Readings)
    requires
        readings.cpu_temperature is Some,
    ensures
        shows(
            published.after(readings.spec_updates()),
            temperature_gauge(),
            Sample::Single(readings.cpu_temperature->0),
        ),
{
    let temperature = readings.cpu_temperature->0;
    let alone = Readings {
        memory: None,
        load_average: None,
        cpu_temperature: readings.cpu_temperature,
        interfaces: None,
    };
    let updates = temperature_updates(temperature);
    assert(alone.spec_updates() =~= updates);
    lemma_after_three(published, updates[0], updates[0], updates[0]);
    assert(updates =~= seq![updates[0]]);
    law_readings_stand_alone(published, readings, alone, temperature_gauge());
}

/// Whether a series is one of the six of a network interface.
pub open spec fn is_interface_gauge(series: SeriesView, name: Seq<char>) -> bool {
    ||| series == network_gauge(name, "rx_bytes"@)
    ||| series == network_gauge(name, "tx_bytes"@)
    ||| series == network_gauge(name, "rx_packets"@)
    ||| series == network_gauge(name, "tx_packets"@)
    ||| series == network_gauge(name, "rx_errors"@)
    ||| series == network_gauge(name, "tx_errors"@)
}

proof fn lemma_network_touches(published: Published, interfaces: Seq<Interface>, series: SeriesView)
    requires
        forall|i: int|
            0 <= i < interfaces.len() && (#[trigger] interfaces[i]).stats is Some
                ==> !is_interface_gauge(series, interfaces[i].name@),
    ensures
        same_on(series, published.after(network_updates(interfaces)), published),
    decreases interfaces.len(),
{
    if interfaces.len() > 0 {
        let init = interfaces.drop_last();
        let last = interfaces.last();
        let updates = interface_updates(last);
        assert(interfaces[interfaces.len() - 1] == last);
        assert forall|i: int|
            0 <= i < init.len() && (#[trigger] init[i]).stats is Some implies !is_interface_gauge(
            series,
            init[i].name@,
        ) by {
            assert(init[i] == interfaces[i]);
        }
        lemma_network_touches(published, init, series);
        assert forall|i: int| 0 <= i < updates.len() implies (#[trigger] updates[i]).series()
            != series by {
            assert(is_interface_gauge(updates[i].series(), last.name@));
        }
        let middle = published.after(network_updates(init));
        law_after_concat(published, network_updates(init), updates);
        lemma_after_local(middle, updates, series);
    }
}

/// A reading of the machine touches nothing that is published but the gauges of what could be read.
pub proof fn law_readings_touch_own_series(
    published: Published,
    readings: Readings,
    series: SeriesView,
)
    requires
        readings.memory is Some ==> series != memory_gauge(),
        readings.load_average is Some ==> series != load_gauge("1m"@) && series != load_gauge("5m"@)
            && series != load_gauge("15m"@),
        readings.cpu_temperature is Some ==> series != temperature_gauge(),
        readings.interfaces matches Some(interfaces) ==> forall|i: int|
            0 <= i < interfaces@.len() && (#[trigger] interfaces@[i]).stats is Some
                ==> !is_interface_gauge(series, interfaces@[i].name@),
    ensures
        same_on(series, published.after(readings.spec_updates()), published),
{
    let none = Seq::<UpdateView>::empty();
    let memory = match readings.memory {
        Some(memory) => memory_updates(memory),
        None => none,
    };
    let load = match readings.load_average {
        Some(load) => load_updates(load),
        None => none,
    };
    let temperature = match readings.cpu_temperature {
        Some(temperature) => temperature_updates(temperature),
        None => none,
    };
    let network = match readings.interfaces {
        Some(interfaces) => network_updates(interfaces@),
        None => none,
    };
    let first = memory + load + temperature;
    assert forall|i: int| 0 <= i < first.len() implies (#[trigger] first[i]).series()
        != series by {
        if i < memory.len() {
            assert(first[i] == memory[i]);
            assert(memory[i].series() == memory_gauge());
        } else if i < memory.len() + load.len() {
            let k = i - memory.len();
            assert(first[i] == load[k]);
            assert(load[0].series() == load_gauge("1m"@));
            assert(load[1].series() == load_gauge("5m"@));
            assert(load[2].series() == load_gauge("15m"@));
        } else {
            let k = i - memory.len() - load.len();
            assert(first[i] == temperature[k]);
            assert(temperature[0].series() == temperature_gauge());
        }
    }
    lemma_after_local(published, first, series);
    law_after_concat(published, first, network);
    let middle = published.after(first);
    match readings.interfaces {
        Some(interfaces) => {
            lemma_network_touches(middle, interfaces@, series);
        },
        None => {
            assert(middle.after(none) == middle);
        },
    }
}

/// Before the first reading the load averages are published, under their three durations, and
/// show zero where they showed nothing; nothing else changes.
pub proof fn law_load_is_created(published: Published, series: SeriesView)
    ensures
        ({
            let after = published.after(load_created());
            &&& after.gauges.contains_key(load_gauge("1m"@))
            &&& after.gauges.contains_key(load_gauge("5m"@))
            &&& after.gauges.contains_key(load_gauge("15m"@))
            &&& after.counter(series) == published.counter(series)
            &&& published.gauges.contains_key(series) ==> shows(
                after,
                series,
                published.gauges[series],
            )
            &&& after.gauges.contains_key(series) && !published.gauges.contains_key(series) ==> {
                &&& after.gauges[series] == Sample::Whole(0)
                &&& {
                    ||| series == load_gauge("1m"@)
                    ||| series == load_gauge("5m"@)
                    ||| series == load_gauge("15m"@)
                }
            }
        }),
{
    let updates = load_created();
    lemma_after_three(published, updates[0], updates[1], updates[2]);
    assert(updates =~= seq![updates[0], updates[1], updates[2]]);
    assert(updates[0].series() == load_gauge("1m"@));
    assert(updates[1].series() == load_gauge("5m"@));
    assert(updates[2].series() == load_gauge("15m"@));
}

} // verus!
