use shack_amqp_monitor::metrics::{Family, Sample, Series, Update};
use shack_amqp_monitor::system::{
    create_load_averages, Interface, LoadAverage, Memory, NetworkStats, Readings,
};

fn set(family: Family, labels: &[&str], sample: Sample) -> Update {
    let labels = labels.iter().map(|label| label.to_string()).collect();
    Update::SetGauge(Series { family, labels }, sample)
}

fn memory(total: u64, free: u64) -> Vec<Update> {
    Readings {
        memory: Some(Memory { total, free }),
        load_average: None,
        cpu_temperature: None,
        interfaces: None,
    }
    .updates()
}

#[test]
fn used_memory_is_what_is_not_free() {
    assert_eq!(
        memory(16_000, 5_000),
        vec![set(Family::SystemMemoryUsed, &[], Sample::Integer(11_000))]
    );
}

#[test]
fn used_memory_is_never_negative() {
    assert_eq!(memory(5, 6), vec![set(Family::SystemMemoryUsed, &[], Sample::Integer(0))]);
    assert_eq!(memory(0, u64::MAX), vec![set(Family::SystemMemoryUsed, &[], Sample::Integer(0))]);
}

#[test]
fn huge_numbers_wrap_around() {
    assert_eq!(
        memory(i64::MAX as u64, 0),
        vec![set(Family::SystemMemoryUsed, &[], Sample::Integer(i64::MAX))]
    );
    assert_eq!(
        memory(1 << 63, 0),
        vec![set(Family::SystemMemoryUsed, &[], Sample::Integer(i64::MIN))]
    );
    assert_eq!(
        memory(u64::MAX, 0),
        vec![set(Family::SystemMemoryUsed, &[], Sample::Integer(-1))]
    );
}

#[test]
fn nothing_read_publishes_nothing() {
    let readings =
        Readings { memory: None, load_average: None, cpu_temperature: None, interfaces: None };
    assert_eq!(readings.updates(), vec![]);
}

#[test]
fn full_reading_is_published_in_order() {
    let stats = NetworkStats {
        rx_bytes: 1,
        tx_bytes: 2,
        rx_packets: 3,
        tx_packets: 4,
        rx_errors: 5,
        tx_errors: u64::MAX,
    };
    let readings = Readings {
        memory: Some(Memory { total: 3, free: 1 }),
        load_average: Some(LoadAverage {
            one: 0.5f32.to_bits(),
            five: 1.5f32.to_bits(),
            fifteen: 2.5f32.to_bits(),
        }),
        cpu_temperature: Some(48.25f32.to_bits()),
        interfaces: Some(vec![
            Interface { name: "lo".to_string(), stats: None },
            Interface { name: "eth0".to_string(), stats: Some(stats) },
        ]),
    };
    assert_eq!(
        readings.updates(),
        vec![
            set(Family::SystemMemoryUsed, &[], Sample::Integer(2)),
            set(Family::SystemLoadAverage, &["1m"], Sample::Single(0.5f32.to_bits())),
            set(Family::SystemLoadAverage, &["5m"], Sample::Single(1.5f32.to_bits())),
            set(Family::SystemLoadAverage, &["15m"], Sample::Single(2.5f32.to_bits())),
            set(Family::SystemCpuTemperature, &[], Sample::Single(48.25f32.to_bits())),
            set(Family::SystemNetworkStats, &["eth0", "rx_bytes"], Sample::Integer(1)),
            set(Family::SystemNetworkStats, &["eth0", "tx_bytes"], Sample::Integer(2)),
            set(Family::SystemNetworkStats, &["eth0", "rx_packets"], Sample::Integer(3)),
            set(Family::SystemNetworkStats, &["eth0", "tx_packets"], Sample::Integer(4)),
            set(Family::SystemNetworkStats, &["eth0", "rx_errors"], Sample::Integer(5)),
            set(Family::SystemNetworkStats, &["eth0", "tx_errors"], Sample::Integer(-1)),
        ]
    );
}

#[test]
fn load_averages_are_created() {
    let create = |duration: &str| {
        Update::Create(Series {
            family: Family::SystemLoadAverage,
            labels: vec![duration.to_string()],
        })
    };
    assert_eq!(create_load_averages(), vec![create("1m"), create("5m"), create("15m")]);
}

#[test]
fn failed_readings_do_not_touch_the_others() {
    let full = || Readings {
        memory: Some(Memory { total: 9, free: 4 }),
        load_average: Some(LoadAverage { one: 1, five: 2, fifteen: 3 }),
        cpu_temperature: Some(4),
        interfaces: Some(vec![]),
    };
    let of = |family: Family, readings: Readings| {
        let mut updates = readings.updates();
        updates.retain(|update| matches!(update, Update::SetGauge(s, _) if s.family == family));
        updates
    };
    let no_load = || Readings { load_average: None, ..full() };
    assert_eq!(of(Family::SystemLoadAverage, no_load()), vec![]);
    for family in [Family::SystemMemoryUsed, Family::SystemCpuTemperature] {
        assert_eq!(of(family, no_load()), of(family, full()));
        assert_eq!(of(family, full()).len(), 1);
    }
}
