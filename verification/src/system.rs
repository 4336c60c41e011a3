//! The state of the machine that the monitor runs on.

use crate::metrics::{updates_view, Family, Sample, Series, SeriesView, Update, UpdateView};
use vstd::prelude::*;

verus! {

/// The memory of the machine, in bytes.
#[derive(Clone, Copy, Debug, PartialEq, Eq)]
pub struct Memory {
    pub total: u64,
    pub free: u64,
}

/// The load averages over one, five and fifteen minutes: single-precision numbers, by their bit
/// patterns.
#[derive(Clone, Copy, Debug, PartialEq, Eq)]
pub struct LoadAverage {
    pub one: u32,
    pub five: u32,
    pub fifteen: u32,
}

/// What went through a network interface.
#[derive(Clone, Copy, Debug, PartialEq, Eq)]
pub struct NetworkStats {
    pub rx_bytes: u64,
    pub tx_bytes: u64,
    pub rx_packets: u64,
    pub tx_packets: u64,
    pub rx_errors: u64,
    pub tx_errors: u64,
}

/// A network interface, and what went through it where that could be read.
#[derive(Debug, PartialEq, Eq)]
pub struct Interface {
    pub name: String,
    pub stats: Option<NetworkStats>,
}

/// One reading of the state of the machine; what could not be read is missing.
#[derive(Debug, PartialEq, Eq)]
pub struct Readings {
    pub memory: Option<Memory>,
    pub load_average: Option<LoadAverage>,
    /// A single-precision number, by its bit pattern.
    pub cpu_temperature: Option<u32>,
    pub interfaces: Option<Vec<Interface>>,
}

/// The bytes that are used: those that are not free, or none where more are free than there are.
pub open spec fn memory_used(memory: Memory) -> u64 {
    if memory.free <= memory.total {
        (memory.total - memory.free) as u64
    } else {
        0
    }
}

/// Calls `systemstat::saturating_sub_bytes`, on sizes in bytes.
///
/// Claimed of it: the result is the difference, or zero where that would be negative.
#[verifier::external_body]
fn saturating_sub_bytes(l: u64, r: u64) -> (d: u64)
    ensures
        d == if r <= l {
            l - r
        } else {
            0
        },
{
    systemstat::saturating_sub_bytes(systemstat::ByteSize::b(l), systemstat::ByteSize::b(r))
        .as_u64()
}

/// The value of a signed gauge that stands for an unsigned one: itself, or, from half of the range
/// on, what it wraps around to.
pub open spec fn wrapped(v: u64) -> i64 {
    if v <= i64::MAX {
        v as i64
    } else {
        (v - 0x1_0000_0000_0000_0000) as i64
    }
}

fn as_signed(v: u64) -> (r: i64)
    ensures
        r == wrapped(v),
{
    proof {
        assert(v <= 0x7fff_ffff_ffff_ffff || v as i64 == v - 0x1_0000_0000_0000_0000)
            by (bit_vector);
    }
    #[verifier::truncate]
    let r: i64 = v as i64;
    r
}

/// What a reading of the memory publishes.
pub open spec fn memory_updates(memory: Memory) -> Seq<UpdateView> {
    seq![
        UpdateView::SetGauge(
            SeriesView::bare(Family::SystemMemoryUsed),
            Sample::Integer(wrapped(memory_used(memory))),
        ),
    ]
}

/// The load average over a duration.
pub open spec fn load_series(duration: Seq<char>) -> SeriesView {
    SeriesView::single(Family::SystemLoadAverage, duration)
}

/// What a reading of the load averages publishes.
pub open spec fn load_updates(load: LoadAverage) -> Seq<UpdateView> {
    seq![
        UpdateView::SetGauge(load_series("1m"@), Sample::Single(load.one)),
        UpdateView::SetGauge(load_series("5m"@), Sample::Single(load.five)),
        UpdateView::SetGauge(load_series("15m"@), Sample::Single(load.fifteen)),
    ]
}

/// What a reading of the temperature of the processor publishes.
pub open spec fn temperature_updates(temperature: u32) -> Seq<UpdateView> {
    seq![
        UpdateView::SetGauge(
            SeriesView::bare(Family::SystemCpuTemperature),
            Sample::Single(temperature),
        ),
    ]
}

/// The update of one number of a network interface.
pub open spec fn network_update(interface: Seq<char>, value: Seq<char>, n: u64) -> UpdateView {
    UpdateView::SetGauge(
        SeriesView::pair(Family::SystemNetworkStats, interface, value),
        Sample::Integer(wrapped(n)),
    )
}

/// What the numbers of a network interface publish.
pub open spec fn stats_updates(interface: Seq<char>, stats: NetworkStats) -> Seq<UpdateView> {
    seq![
        network_update(interface, "rx_bytes"@, stats.rx_bytes),
        network_update(interface, "tx_bytes"@, stats.tx_bytes),
        network_update(interface, "rx_packets"@, stats.rx_packets),
        network_update(interface, "tx_packets"@, stats.tx_packets),
        network_update(interface, "rx_errors"@, stats.rx_errors),
        network_update(interface, "tx_errors"@, stats.tx_errors),
    ]
}

/// What a reading of a network interface publishes: nothing where it failed.
pub open spec fn interface_updates(interface: Interface) -> Seq<UpdateView> {
    match interface.stats {
        Some(stats) => stats_updates(interface.name@, stats),
        None => seq![],
    }
}

/// What readings of network interfaces publish, one after the other.
pub open spec fn network_updates(interfaces: Seq<Interface>) -> Seq<UpdateView>
    decreases interfaces.len(),
{
    if interfaces.len() == 0 {
        seq![]
    } else {
        network_updates(interfaces.drop_last()) + interface_updates(interfaces.last())
    }
}

impl Readings {
    /// What a reading of the machine publishes.
    pub open spec fn spec_updates(self) -> Seq<UpdateView> {
        let memory = match self.memory {
            Some(memory) => memory_updates(memory),
            None => seq![],
        };
        let load = match self.load_average {
            Some(load) => load_updates(load),
            None => seq![],
        };
        let temperature = match self.cpu_temperature {
            Some(temperature) => temperature_updates(temperature),
            None => seq![],
        };
        let network = match self.interfaces {
            Some(interfaces) => network_updates(interfaces@),
            None => seq![],
        };
        memory + load + temperature + network
    }

    /// Returns what a reading of the machine publishes.
    pub fn updates(&self) -> (r: Vec<Update>)
        ensures
            updates_view(r@) == self.spec_updates(),
    {
        let mut r: Vec<Update> = Vec::new();
        let ghost mut done: Seq<UpdateView> = seq![];
        proof {
            assert(updates_view(r@) =~= done);
        }
        if let Some(memory) = self.memory {
            let used = saturating_sub_bytes(memory.total, memory.free);
            r.push(
                Update::SetGauge(
                    Series::bare(Family::SystemMemoryUsed),
                    Sample::Integer(as_signed(used)),
                ),
            );
            proof {
                done = done + memory_updates(memory);
                assert(updates_view(r@) =~= done);
            }
        }
        if let Some(load) = self.load_average {
            r.push(set_load("1m", load.one));
            r.push(set_load("5m", load.five));
            r.push(set_load("15m", load.fifteen));
            proof {
                assert(updates_view(r@) =~= done + load_updates(load));
                done = done + load_updates(load);
            }
        }
        if let Some(temperature) = self.cpu_temperature {
            r.push(
                Update::SetGauge(
                    Series::bare(Family::SystemCpuTemperature),
                    Sample::Single(temperature),
                ),
            );
            proof {
                assert(updates_view(r@) =~= done + temperature_updates(temperature));
                done = done + temperature_updates(temperature);
            }
        }
        if let Some(interfaces) = &self.interfaces {
            let mut i: usize = 0;
            proof {
                assert(interfaces@.take(0) =~= Seq::empty());
                assert(done + network_updates(interfaces@.take(0)) =~= done);
            }
            while i < interfaces.len()
                invariant
                    i <= interfaces@.len(),
                    updates_view(r@) == done + network_updates(interfaces@.take(i as int)),
                decreases interfaces@.len() - i,
            {
                let ghost held = r@;
                let mut published = interfaces[i].updates();
                let ghost added = published@;
                r.append(&mut published);
                proof {
                    let next = interfaces@.take(i + 1);
                    assert(next.drop_last() =~= interfaces@.take(i as int));
                    assert(next.last() == interfaces@[i as int]);
                    assert(updates_view(r@) =~= updates_view(held) + updates_view(added));
                    assert(updates_view(r@) =~= done + network_updates(next));
                }
                i = i + 1;
            }
            proof {
                assert(interfaces@.take(i as int) =~= interfaces@);
            }
        }
        proof {
            assert(updates_view(r@) =~= self.spec_updates());
        }
        r
    }
}

fn set_load(duration: &str, load: u32) -> (r: Update)
    ensures
        r@ == UpdateView::SetGauge(load_series(duration@), Sample::Single(load)),
{
    Update::SetGauge(Series::single(Family::SystemLoadAverage, duration), Sample::Single(load))
}

impl Interface {
    fn update(&self, value: &str, n: u64) -> (r: Update)
        ensures
            r@ == network_update(self.name@, value@, n),
    {
        Update::SetGauge(
            Series::pair(Family::SystemNetworkStats, self.name.as_str(), value),
            Sample::Integer(as_signed(n)),
        )
    }

    /// Returns what a reading of a network interface publishes.
    pub fn updates(&self) -> (r: Vec<Update>)
        ensures
            updates_view(r@) == interface_updates(*self),
    {
        let mut r: Vec<Update> = Vec::new();
        if let Some(stats) = self.stats {
            r.push(self.update("rx_bytes", stats.rx_bytes));
            r.push(self.update("tx_bytes", stats.tx_bytes));
            r.push(self.update("rx_packets", stats.rx_packets));
            r.push(self.update("tx_packets", stats.tx_packets));
            r.push(self.update("rx_errors", stats.rx_errors));
            r.push(self.update("tx_errors", stats.tx_errors));
        }
        proof {
            assert(updates_view(r@) =~= interface_updates(*self));
        }
        r
    }
}

/// What is published of the load averages before the first reading: their series.
pub open spec fn load_created() -> Seq<UpdateView> {
    seq![
        UpdateView::Create(load_series("1m"@)),
        UpdateView::Create(load_series("5m"@)),
        UpdateView::Create(load_series("15m"@)),
    ]
}

/// Returns what is published of the load averages before the first reading.
pub fn create_load_averages() -> (r: Vec<Update>)
    ensures
        updates_view(r@) == load_created(),
{
    let mut r: Vec<Update> = Vec::new();
    r.push(Update::Create(Series::single(Family::SystemLoadAverage, "1m")));
    r.push(Update::Create(Series::single(Family::SystemLoadAverage, "5m")));
    r.push(Update::Create(Series::single(Family::SystemLoadAverage, "15m")));
    proof {
        assert(updates_view(r@) =~= load_created());
    }
    r
}

} // verus!
