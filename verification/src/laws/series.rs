//! How metrics, series and updates appear on Prometheus.

use crate::laws::shows;
use crate::metrics::{
    updates_view, Family, FamilyKind, Published, Sample, Series, SeriesView, Update, UpdateView,
};
use crate::model::InputValueType;
use vstd::prelude::*;

verus! {

/// Each metric is published under its name.
pub proof fn law_metric_names(family: Family)
    ensures
        family is InputBinary ==> family.spec_name() == "input_binary"@,
        family is InputContinuous ==> family.spec_name() == "input_continuous"@,
        family is InputTemperature ==> family.spec_name() == "input_temperature"@,
        family is InputHumidity ==> family.spec_name() == "input_humidity"@,
        family is InputPressure ==> family.spec_name() == "input_pressure"@,
        family is InputGas ==> family.spec_name() == "input_gas"@,
        family is InputValueOk ==> family.spec_name() == "input_value_ok"@,
        family is InputUpdates ==> family.spec_name() == "input_updates"@,
        family is SystemMemoryUsed ==> family.spec_name() == "system_memory_used"@,
        family is SystemLoadAverage ==> family.spec_name() == "system_load_average"@,
        family is SystemCpuTemperature ==> family.spec_name() == "system_cpu_temperature"@,
        family is SystemNetworkStats ==> family.spec_name() == "system_network_stats"@,
{
}

/// Each metric is published with its meaning.
pub proof fn law_metric_meanings(family: Family)
    ensures
        family is InputBinary ==> family.spec_help() == "binary input values by alias"@,
        family is InputContinuous ==> family.spec_help()
            == "continuous 16-bit input values by alias"@,
        family is InputTemperature ==> family.spec_help() == "temperature in celsius by alias"@,
        family is InputHumidity ==> family.spec_help() == "relative humidity by alias"@,
        family is InputPressure ==> family.spec_help() == "air pressure in pascals by alias"@,
        family is InputGas ==> family.spec_help() == "gas in ohms by alias"@,
        family is InputValueOk ==> family.spec_help()
            == "whether the current input value is ok, by alias"@,
        family is InputUpdates ==> family.spec_help()
            == "number of input value updates by alias and status"@,
        family is SystemMemoryUsed ==> family.spec_help()
            == "amount of memory used (=total-free) in bytes"@,
        family is SystemLoadAverage ==> family.spec_help() == "Linux load average"@,
        family is SystemCpuTemperature ==> family.spec_help() == "CPU temperature in celsius"@,
        family is SystemNetworkStats ==> family.spec_help()
            == "network statistics by interface and value"@,
{
}

/// What is told of inputs is labelled by their aliases, and counts of updates by their status too;
/// load averages are labelled by their duration, what is told of network interfaces by the
/// interface and the value, and the two other metrics of the machine by nothing.
pub proof fn law_metric_labels(family: Family)
    ensures
        ({
            let labels = family.spec_label_names();
            match family {
                Family::InputUpdates => {
                    labels.len() == 2 && labels[0] == "alias"@ && labels[1] == "status"@
                },
                Family::SystemMemoryUsed => labels.len() == 0,
                Family::SystemCpuTemperature => labels.len() == 0,
                Family::SystemLoadAverage => labels.len() == 1 && labels[0] == "duration"@,
                Family::SystemNetworkStats => {
                    labels.len() == 2 && labels[0] == "interface"@ && labels[1] == "value"@
                },
                _ => labels.len() == 1 && labels[0] == "alias"@,
            }
        }),
{
}

/// Updates are counted, memory and network statistics are whole numbers, and everything else is
/// shown by gauges of floating-point numbers.
pub proof fn law_metric_kinds(family: Family)
    ensures
        family.spec_kind() == FamilyKind::IntCounter <==> family is InputUpdates,
        family.spec_kind() == FamilyKind::IntGauge <==> (family is SystemMemoryUsed
            || family is SystemNetworkStats),
{
}

/// The values of an input are published under the name of what it measures.
pub proof fn law_input_metric_names(input_type: InputValueType)
    ensures
        ({
            let name = Family::spec_of_input(input_type).spec_name();
            match input_type {
                InputValueType::Binary => name == "input_binary"@,
                InputValueType::Temperature => name == "input_temperature"@,
                InputValueType::Humidity => name == "input_humidity"@,
                InputValueType::Pressure => name == "input_pressure"@,
                InputValueType::Gas => name == "input_gas"@,
                InputValueType::Continuous => name == "input_continuous"@,
            }
        }),
{
}

/// A series is its metric and its labels, each as it is written and in their order.
pub proof fn law_series_is_its_labels(series: Series)
    ensures
        series@.family == series.family,
        series@.labels.len() == series.labels@.len(),
        forall|i: int|
            0 <= i < series.labels@.len() ==> #[trigger] series@.labels[i] == series.labels@[i]@,
{
}

/// Series without a label, with one and with two have just those labels.
pub proof fn law_series_labels(family: Family, a: Seq<char>, b: Seq<char>)
    ensures
        SeriesView::bare(family) == (SeriesView { family, labels: Seq::<Seq<char>>::empty() }),
        SeriesView::single(family, a).family == family,
        SeriesView::single(family, a).labels.len() == 1,
        SeriesView::single(family, a).labels[0] == a,
        SeriesView::pair(family, a, b).family == family,
        SeriesView::pair(family, a, b).labels.len() == 2,
        SeriesView::pair(family, a, b).labels[0] == a,
        SeriesView::pair(family, a, b).labels[1] == b,
{
}

/// An update is about the series and the number that it holds.
pub proof fn law_update_is_what_it_holds(update: Update)
    ensures
        update matches Update::Create(series) ==> update@ == UpdateView::Create(series@),
        update matches Update::SetGauge(series, sample) ==> update@ == UpdateView::SetGauge(
            series@,
            sample,
        ),
        update matches Update::Increment(series) ==> update@ == UpdateView::Increment(series@),
{
}

/// A list of updates is those updates, in their order.
pub proof fn law_updates_are_in_order(updates: Seq<Update>)
    ensures
        updates_view(updates).len() == updates.len(),
        forall|i: int|
            0 <= i < updates.len() ==> #[trigger] updates_view(updates)[i] == updates[i]@,
{
}

/// A gauge that is set shows that number, a counter that is incremented counts one more, and a
/// series that is created shows zero where it was not there; what was there keeps its number, and
/// so does every other series.
pub proof fn law_update_effect(published: Published, update: UpdateView, series: SeriesView)
    requires
        update.wf(),
    ensures
        ({
            let after = update.apply(published);
            &&& update matches UpdateView::SetGauge(s, sample) ==> shows(after, s, sample)
            &&& update matches UpdateView::Increment(s) ==> {
                &&& after.counters.contains_key(s)
                &&& after.counters[s] == published.counter(s) + 1
            }
            &&& update matches UpdateView::Create(s) ==> {
                &&& after.counter(s) == published.counter(s)
                &&& s.family is InputUpdates ==> after.counters.contains_key(s)
                &&& !(s.family is InputUpdates) ==> after.gauges.contains_key(s)
                &&& published.gauges.contains_key(s) ==> after.gauges[s] == published.gauges[s]
                &&& !published.gauges.contains_key(s) && after.gauges.contains_key(s)
                    ==> after.gauges[s] == Sample::Whole(0) || after.gauges[s]
                    == Sample::Integer(0)
            }
            &&& update.series() != series ==> {
                &&& after.counters.contains_key(series) == published.counters.contains_key(series)
                &&& after.counter(series) == published.counter(series)
                &&& after.gauges.contains_key(series) == published.gauges.contains_key(series)
                &&& after.gauges[series] == published.gauges[series]
            }
        }),
{
}

/// Updates take effect one after the other.
pub proof fn law_updates_one_by_one(
    published: Published,
    updates: Seq<UpdateView>,
    update: UpdateView,
)
    ensures
        published.after(Seq::empty()) == published,
        published.after(updates.push(update)) == update.apply(published.after(updates)),
{
    assert(updates.push(update).drop_last() =~= updates);
}

} // verus!
