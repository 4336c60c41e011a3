//! The metrics that are published on Prometheus, and the updates to them.

use crate::model::{InputValue, InputValueType};
use vstd::prelude::*;

verus! {

/// A metric, of which each choice of label values is a series.
#[derive(Clone, Copy, Debug, PartialEq, Eq, Structural)]
pub enum Family {
    InputBinary,
    InputContinuous,
    InputTemperature,
    InputHumidity,
    InputPressure,
    InputGas,
    InputValueOk,
    InputUpdates,
    SystemMemoryUsed,
    SystemLoadAverage,
    SystemCpuTemperature,
    SystemNetworkStats,
}

/// How the series of a metric hold their values.
#[derive(Clone, Copy, Debug, PartialEq, Eq, Structural)]
pub enum FamilyKind {
    Gauge,
    IntGauge,
    IntCounter,
}

impl Family {
    /// The name under which the metric is published.
    pub open spec fn spec_name(self) -> Seq<char> {
        match self {
            Family::InputBinary => "input_binary"@,
            Family::InputContinuous => "input_continuous"@,
            Family::InputTemperature => "input_temperature"@,
            Family::InputHumidity => "input_humidity"@,
            Family::InputPressure => "input_pressure"@,
            Family::InputGas => "input_gas"@,
            Family::InputValueOk => "input_value_ok"@,
            Family::InputUpdates => "input_updates"@,
            Family::SystemMemoryUsed => "system_memory_used"@,
            Family::SystemLoadAverage => "system_load_average"@,
            Family::SystemCpuTemperature => "system_cpu_temperature"@,
            Family::SystemNetworkStats => "system_network_stats"@,
        }
    }

    /// The name under which the metric is published.
    pub fn name(self) -> (r: &'static str)
        ensures
            r@ == self.spec_name(),
    {
        match self {
            Family::InputBinary => "input_binary",
            Family::InputContinuous => "input_continuous",
            Family::InputTemperature => "input_temperature",
            Family::InputHumidity => "input_humidity",
            Family::InputPressure => "input_pressure",
            Family::InputGas => "input_gas",
            Family::InputValueOk => "input_value_ok",
            Family::InputUpdates => "input_updates",
            Family::SystemMemoryUsed => "system_memory_used",
            Family::SystemLoadAverage => "system_load_average",
            Family::SystemCpuTemperature => "system_cpu_temperature",
            Family::SystemNetworkStats => "system_network_stats",
        }
    }

    /// What the metric is published to mean.
    pub open spec fn spec_help(self) -> Seq<char> {
        match self {
            Family::InputBinary => "binary input values by alias"@,
            Family::InputContinuous => "continuous 16-bit input values by alias"@,
            Family::InputTemperature => "temperature in celsius by alias"@,
            Family::InputHumidity => "relative humidity by alias"@,
            Family::InputPressure => "air pressure in pascals by alias"@,
            Family::InputGas => "gas in ohms by alias"@,
            Family::InputValueOk => "whether the current input value is ok, by alias"@,
            Family::InputUpdates => "number of input value updates by alias and status"@,
            Family::SystemMemoryUsed => "amount of memory used (=total-free) in bytes"@,
            Family::SystemLoadAverage => "Linux load average"@,
            Family::SystemCpuTemperature => "CPU temperature in celsius"@,
            Family::SystemNetworkStats => "network statistics by interface and value"@,
        }
    }

    /// What the metric is published to mean.
    pub fn help(self) -> (r: &'static str)
        ensures
            r@ == self.spec_help(),
    {
        match self {
            Family::InputBinary => "binary input values by alias",
            Family::InputContinuous => "continuous 16-bit input values by alias",
            Family::InputTemperature => "temperature in celsius by alias",
            Family::InputHumidity => "relative humidity by alias",
            Family::InputPressure => "air pressure in pascals by alias",
            Family::InputGas => "gas in ohms by alias",
            Family::InputValueOk => "whether the current input value is ok, by alias",
            Family::InputUpdates => "number of input value updates by alias and status",
            Family::SystemMemoryUsed => "amount of memory used (=total-free) in bytes",
            Family::SystemLoadAverage => "Linux load average",
            Family::SystemCpuTemperature => "CPU temperature in celsius",
            Family::SystemNetworkStats => "network statistics by interface and value",
        }
    }

    /// The names of the labels that tell the series of the metric apart.
    pub open spec fn spec_label_names(self) -> Seq<Seq<char>> {
        match self {
            Family::InputUpdates => seq!["alias"@, "status"@],
            Family::SystemMemoryUsed | Family::SystemCpuTemperature => seq![],
            Family::SystemLoadAverage => seq!["duration"@],
            Family::SystemNetworkStats => seq!["interface"@, "value"@],
            _ => seq!["alias"@],
        }
    }

    /// The names of the labels that tell the series of the metric apart.
    pub fn label_names(self) -> (r: Vec<&'static str>)
        ensures
            r@.map_values(|label: &'static str| label@) == self.spec_label_names(),
    {
        let r = match self {
            Family::InputUpdates => vec!["alias", "status"],
            Family::SystemMemoryUsed | Family::SystemCpuTemperature => Vec::new(),
            Family::SystemLoadAverage => vec!["duration"],
            Family::SystemNetworkStats => vec!["interface", "value"],
            _ => vec!["alias"],
        };
        proof {
            assert(r@.map_values(|label: &'static str| label@) =~= self.spec_label_names());
        }
        r
    }

    /// How the series of the metric hold their values.
    pub open spec fn spec_kind(self) -> FamilyKind {
        match self {
            Family::InputUpdates => FamilyKind::IntCounter,
            Family::SystemMemoryUsed | Family::SystemNetworkStats => FamilyKind::IntGauge,
            _ => FamilyKind::Gauge,
        }
    }

    /// The metric that shows the values of an input of the given type.
    pub open spec fn spec_of_input(input_type: InputValueType) -> Family {
        match input_type {
            InputValueType::Binary => Family::InputBinary,
            InputValueType::Temperature => Family::InputTemperature,
            InputValueType::Humidity => Family::InputHumidity,
            InputValueType::Pressure => Family::InputPressure,
            InputValueType::Gas => Family::InputGas,
            InputValueType::Continuous => Family::InputContinuous,
        }
    }

    /// The metric that shows the values of an input of the given type.
    pub fn of_input(input_type: InputValueType) -> (r: Family)
        ensures
            r == Family::spec_of_input(input_type),
    {
        match input_type {
            InputValueType::Binary => Family::InputBinary,
            InputValueType::Temperature => Family::InputTemperature,
            InputValueType::Humidity => Family::InputHumidity,
            InputValueType::Pressure => Family::InputPressure,
            InputValueType::Gas => Family::InputGas,
            InputValueType::Continuous => Family::InputContinuous,
        }
    }
}

/// A number that a gauge is set to.
#[derive(Clone, Copy, Debug, PartialEq, Eq, Structural)]
pub enum Sample {
    /// A small whole number.
    Whole(u16),
    /// A single-precision number, by its bit pattern.
    Single(u32),
    /// A double-precision number, by its bit pattern.
    Double(u64),
    /// The value of an integer gauge.
    Integer(i64),
}

/// The number that stands for a value: one or zero for a binary value, the value itself for any
/// other.
pub open spec fn sample_of(value: InputValue) -> Sample {
    match value {
        InputValue::Binary(b) => Sample::Whole(if b {
            1
        } else {
            0
        }),
        InputValue::Temperature(t) => Sample::Double(t),
        InputValue::Humidity(h) => Sample::Double(h),
        InputValue::Pressure(p) => Sample::Double(p),
        InputValue::Gas(g) => Sample::Double(g),
        InputValue::Continuous(c) => Sample::Whole(c),
    }
}

/// The number that stands for a value.
pub fn input_value_to_sample(value: &InputValue) -> (r: Sample)
    ensures
        r == sample_of(*value),
{
    match value {
        InputValue::Binary(b) => {
            if *b {
                Sample::Whole(1)
            } else {
                Sample::Whole(0)
            }
        },
        InputValue::Temperature(t) => Sample::Double(*t),
        InputValue::Humidity(h) => Sample::Double(*h),
        InputValue::Pressure(p) => Sample::Double(*p),
        InputValue::Gas(g) => Sample::Double(*g),
        InputValue::Continuous(c) => Sample::Whole(*c),
    }
}

/// A series of a metric: the metric and a value for each of its labels.
#[derive(Debug, PartialEq, Eq)]
pub struct Series {
    pub family: Family,
    pub labels: Vec<String>,
}

/// What a [`Series`] is.
pub struct SeriesView {
    pub family: Family,
    pub labels: Seq<Seq<char>>,
}

impl View for Series {
    type V = SeriesView;

    open spec fn view(&self) -> SeriesView {
        SeriesView {
            family: self.family,
            labels: self.labels@.map_values(|label: String| label@),
        }
    }
}

impl SeriesView {
    /// A series without labels.
    pub open spec fn bare(family: Family) -> SeriesView {
        SeriesView { family, labels: seq![] }
    }

    /// A series told apart by one label.
    pub open spec fn single(family: Family, label: Seq<char>) -> SeriesView {
        SeriesView { family, labels: seq![label] }
    }

    /// A series told apart by two labels.
    pub open spec fn pair(family: Family, first: Seq<char>, second: Seq<char>) -> SeriesView {
        SeriesView { family, labels: seq![first, second] }
    }

    /// Whether there is one value for each label of the metric.
    pub open spec fn wf(self) -> bool {
        self.labels.len() == self.family.spec_label_names().len()
    }
}

impl Series {
    /// A series without labels.
    pub fn bare(family: Family) -> (r: Series)
        ensures
            r@ == SeriesView::bare(family),
    {
        let r = Series { family, labels: Vec::new() };
        proof {
            assert(r@.labels =~= seq![]);
        }
        r
    }

    /// A series told apart by one label.
    pub fn single(family: Family, label: &str) -> (r: Series)
        ensures
            r@ == SeriesView::single(family, label@),
    {
        let mut labels = Vec::new();
        labels.push(label.to_owned());
        let r = Series { family, labels };
        proof {
            assert(r@.labels =~= seq![label@]);
        }
        r
    }

    /// A series told apart by two labels.
    pub fn pair(family: Family, first: &str, second: &str) -> (r: Series)
        ensures
            r@ == SeriesView::pair(family, first@, second@),
    {
        let mut labels = Vec::new();
        labels.push(first.to_owned());
        labels.push(second.to_owned());
        let r = Series { family, labels };
        proof {
            assert(r@.labels =~= seq![first@, second@]);
        }
        r
    }
}

/// A change to what is published.
#[derive(Debug, PartialEq, Eq)]
pub enum Update {
    /// The series is published from now on, if it was not before.
    Create(Series),
    /// The gauge shows the number.
    SetGauge(Series, Sample),
    /// The counter grows by one.
    Increment(Series),
}

/// What an [`Update`] is.
pub enum UpdateView {
    Create(SeriesView),
    SetGauge(SeriesView, Sample),
    Increment(SeriesView),
}

impl View for Update {
    type V = UpdateView;

    open spec fn view(&self) -> UpdateView {
        match self {
            Update::Create(series) => UpdateView::Create(series@),
            Update::SetGauge(series, sample) => UpdateView::SetGauge(series@, *sample),
            Update::Increment(series) => UpdateView::Increment(series@),
        }
    }
}

/// What a sequence of updates is.
pub open spec fn updates_view(updates: Seq<Update>) -> Seq<UpdateView> {
    updates.map_values(|update: Update| update@)
}

impl UpdateView {
    /// The series that the update is about.
    pub open spec fn series(self) -> SeriesView {
        match self {
            UpdateView::Create(series) => series,
            UpdateView::SetGauge(series, _) => series,
            UpdateView::Increment(series) => series,
        }
    }

    /// Whether the metric takes such an update: there is a value for each of its labels, only
    /// counters are incremented, and gauges are set to numbers of their own sort.
    pub open spec fn wf(self) -> bool {
        &&& self.series().wf()
        &&& match self {
            UpdateView::Create(_) => true,
            UpdateView::SetGauge(series, sample) => match series.family.spec_kind() {
                FamilyKind::Gauge => !(sample is Integer),
                FamilyKind::IntGauge => sample is Integer,
                FamilyKind::IntCounter => false,
            },
            UpdateView::Increment(series) => series.family.spec_kind() == FamilyKind::IntCounter,
        }
    }

    /// What is published after the update.
    pub open spec fn apply(self, published: Published) -> Published {
        match self {
            UpdateView::Create(series) => match series.family.spec_kind() {
                FamilyKind::IntCounter => published.with_counter(series, published.counter(series)),
                FamilyKind::IntGauge => if published.gauges.contains_key(series) {
                    published
                } else {
                    published.with_gauge(series, Sample::Integer(0))
                },
                FamilyKind::Gauge => if published.gauges.contains_key(series) {
                    published
                } else {
                    published.with_gauge(series, Sample::Whole(0))
                },
            },
            UpdateView::SetGauge(series, sample) => published.with_gauge(series, sample),
            UpdateView::Increment(series) => published.with_counter(
                series,
                published.counter(series) + 1,
            ),
        }
    }
}

/// What Prometheus is shown: the number that each gauge shows, and how far each counter counted.
#[verifier::ext_equal]
pub struct Published {
    pub gauges: Map<SeriesView, Sample>,
    pub counters: Map<SeriesView, nat>,
}

impl Published {
    /// How far a counter counted.
    pub open spec fn counter(self, series: SeriesView) -> nat {
        if self.counters.contains_key(series) {
            self.counters[series]
        } else {
            0
        }
    }

    pub open spec fn with_gauge(self, series: SeriesView, sample: Sample) -> Published {
        Published { gauges: self.gauges.insert(series, sample), ..self }
    }

    pub open spec fn with_counter(self, series: SeriesView, count: nat) -> Published {
        Published { counters: self.counters.insert(series, count), ..self }
    }

    /// What is published after the updates, one after the other.
    pub open spec fn after(self, updates: Seq<UpdateView>) -> Published
        decreases updates.len(),
    {
        if updates.len() == 0 {
            self
        } else {
            updates.last().apply(self.after(updates.drop_last()))
        }
    }
}

/// No two metrics are published under one name.
pub proof fn law_names_distinct(a: Family, b: Family)
    requires
        a != b,
    ensures
        a.spec_name() != b.spec_name(),
{
    reveal_strlit("input_binary");
    reveal_strlit("input_continuous");
    reveal_strlit("input_temperature");
    reveal_strlit("input_humidity");
    reveal_strlit("input_pressure");
    reveal_strlit("input_gas");
    reveal_strlit("input_value_ok");
    reveal_strlit("input_updates");
    reveal_strlit("system_memory_used");
    reveal_strlit("system_load_average");
    reveal_strlit("system_cpu_temperature");
    reveal_strlit("system_network_stats");
    assert("input_binary"@.len() == 12);
    assert("input_continuous"@.len() == 16);
    assert("input_temperature"@.len() == 17);
    assert("input_humidity"@.len() == 14);
    assert("input_pressure"@.len() == 14);
    assert("input_gas"@.len() == 9);
    assert("input_value_ok"@.len() == 14);
    assert("input_updates"@.len() == 13);
    assert("system_memory_used"@.len() == 18);
    assert("system_load_average"@.len() == 19);
    assert("system_cpu_temperature"@.len() == 22);
    assert("system_network_stats"@.len() == 20);
    assert("input_humidity"@[6] == 'h');
    assert("input_pressure"@[6] == 'p');
    assert("input_value_ok"@[6] == 'v');
}

/// Inputs of different types are shown by different metrics.
pub proof fn law_input_metrics_distinct(a: InputValueType, b: InputValueType)
    requires
        a != b,
    ensures
        Family::spec_of_input(a) != Family::spec_of_input(b),
{
}

/// Updates that are made one after the other can be made in two parts.
pub proof fn law_after_concat(published: Published, first: Seq<UpdateView>, second: Seq<UpdateView>)
    ensures
        published.after(first + second) == published.after(first).after(second),
    decreases second.len(),
{
    if second.len() == 0 {
        assert(first + second =~= first);
    } else {
        law_after_concat(published, first, second.drop_last());
        assert((first + second).drop_last() =~= first + second.drop_last());
        assert((first + second).last() == second.last());
    }
}

/// An update changes nothing that is published but its own series.
pub proof fn law_update_local(published: Published, update: UpdateView, series: SeriesView)
    requires
        update.series() != series,
    ensures
        update.apply(published).counter(series) == published.counter(series),
        update.apply(published).gauges.contains_key(series) == published.gauges.contains_key(series),
        update.apply(published).gauges[series] == published.gauges[series],
{
}

} // verus!
