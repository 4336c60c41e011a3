use shack_amqp_monitor::metrics::{Family, Sample, Series, Update};
use shack_amqp_monitor::model::{
    DeviceConfig, Event, EventError, EventKind, InputConfig, InputValue, InputValueType,
    OutputConfig, TimestampedInputValue, UniverseConfig,
};
use shack_amqp_monitor::monitor::{spawn_metrics_tasks, HistoryError, Monitor};
use shack_amqp_monitor::query::HistoryQuery;

const NO_DETAILS: HistoryQuery = HistoryQuery { error_backtraces: None, error_causes: None };

const ALL_DETAILS: HistoryQuery =
    HistoryQuery { error_backtraces: Some(true), error_causes: Some(true) };

fn series(family: Family, labels: &[&str]) -> Series {
    Series { family, labels: labels.iter().map(|label| label.to_string()).collect() }
}

fn update(header: u32, new_value: InputValue) -> Event<u32> {
    Event { header, inner: Ok(EventKind::Update { new_value }) }
}

fn other(header: u32) -> Event<u32> {
    Event { header, inner: Ok(EventKind::Other) }
}

fn failure(header: u32) -> Event<u32> {
    Event {
        header,
        inner: Err(EventError {
            chain: vec!["sensor".to_string(), "bus".to_string()],
            backtrace: Some("0: main".to_string()),
        }),
    }
}

fn headers(events: &[Event<u32>]) -> Vec<u32> {
    events.iter().map(|event| event.header).collect()
}

fn created(family: Family, alias: &str) -> Vec<Update> {
    vec![
        Update::Create(series(family, &[alias])),
        Update::Create(series(Family::InputValueOk, &[alias])),
        Update::Create(series(Family::InputUpdates, &[alias, "ok"])),
        Update::Create(series(Family::InputUpdates, &[alias, "error"])),
    ]
}

fn universe() -> UniverseConfig {
    UniverseConfig {
        devices: vec![
            DeviceConfig {
                inputs: vec![
                    InputConfig {
                        alias: "kitchen".to_string(),
                        input_type: InputValueType::Temperature,
                    },
                    InputConfig { alias: "door".to_string(), input_type: InputValueType::Binary },
                ],
                outputs: vec![OutputConfig { alias: "lamp".to_string() }],
            },
            DeviceConfig { inputs: vec![], outputs: vec![] },
            DeviceConfig {
                inputs: vec![InputConfig {
                    alias: "air".to_string(),
                    input_type: InputValueType::Gas,
                }],
                outputs: vec![],
            },
        ],
    }
}

#[test]
fn configured_inputs_and_outputs_are_known() {
    let (monitor, updates): (Monitor<u32>, Vec<Update>) = spawn_metrics_tasks(&universe(), 10);
    assert_eq!(monitor.len(), 4);
    for alias in ["kitchen", "door", "lamp", "air"] {
        assert!(monitor.contains_alias(alias));
        assert_eq!(monitor.get_history_alias(alias, &ALL_DETAILS), Ok(vec![]));
    }
    assert!(!monitor.contains_alias("garage"));
    let mut expected = created(Family::InputTemperature, "kitchen");
    expected.extend(created(Family::InputBinary, "door"));
    expected.extend(created(Family::InputContinuous, "lamp"));
    expected.extend(created(Family::InputGas, "air"));
    assert_eq!(updates, expected);
}

#[test]
fn unknown_alias_has_no_history() {
    let (monitor, _): (Monitor<u32>, Vec<Update>) = spawn_metrics_tasks(&universe(), 10);
    assert_eq!(
        monitor.get_history_alias("garage", &NO_DETAILS),
        Err(HistoryError::UnknownAlias)
    );
}

#[test]
fn new_value_is_published_and_counted() {
    let (mut monitor, _) = spawn_metrics_tasks(&universe(), 10);
    let updates = monitor.handle_incoming_event(
        "kitchen",
        InputValueType::Temperature,
        update(1, InputValue::Temperature(21.5f64.to_bits())),
    );
    assert_eq!(
        updates,
        vec![
            Update::SetGauge(
                series(Family::InputTemperature, &["kitchen"]),
                Sample::Double(21.5f64.to_bits())
            ),
            Update::SetGauge(series(Family::InputValueOk, &["kitchen"]), Sample::Whole(1)),
            Update::Increment(series(Family::InputUpdates, &["kitchen", "ok"])),
        ]
    );
}

#[test]
fn error_is_published_and_counted() {
    let (mut monitor, _) = spawn_metrics_tasks(&universe(), 10);
    let updates = monitor.handle_incoming_event("door", InputValueType::Binary, failure(1));
    assert_eq!(
        updates,
        vec![
            Update::SetGauge(series(Family::InputValueOk, &["door"]), Sample::Whole(0)),
            Update::Increment(series(Family::InputUpdates, &["door", "error"])),
        ]
    );
}

#[test]
fn other_events_publish_nothing_but_are_kept() {
    let (mut monitor, _) = spawn_metrics_tasks(&universe(), 10);
    let updates = monitor.handle_incoming_event("door", InputValueType::Binary, other(7));
    assert_eq!(updates, vec![]);
    let history = monitor.get_history_alias("door", &NO_DETAILS).unwrap();
    assert_eq!(history, vec![other(7)]);
}

#[test]
fn event_of_an_unknown_alias_makes_it_known() {
    let mut monitor: Monitor<u32> = Monitor::new(10);
    let updates = monitor.handle_incoming_event(
        "garage",
        InputValueType::Continuous,
        update(1, InputValue::Continuous(512)),
    );
    let mut expected = created(Family::InputContinuous, "garage");
    expected.push(Update::SetGauge(
        series(Family::InputContinuous, &["garage"]),
        Sample::Whole(512),
    ));
    expected.push(Update::SetGauge(series(Family::InputValueOk, &["garage"]), Sample::Whole(1)));
    expected.push(Update::Increment(series(Family::InputUpdates, &["garage", "ok"])));
    assert_eq!(updates, expected);
    assert!(monitor.contains_alias("garage"));
}

#[test]
fn type_of_a_known_input_stays() {
    let (mut monitor, _) = spawn_metrics_tasks(&universe(), 10);
    let updates = monitor.handle_incoming_event(
        "lamp",
        InputValueType::Pressure,
        update(1, InputValue::Pressure(1u64)),
    );
    assert_eq!(
        updates[0],
        Update::SetGauge(series(Family::InputContinuous, &["lamp"]), Sample::Double(1))
    );
    assert_eq!(updates.len(), 3);
}

#[test]
fn history_keeps_the_most_recent_events_in_order() {
    let mut monitor: Monitor<u32> = Monitor::new(3);
    for i in 0..5 {
        monitor.handle_incoming_event("a", InputValueType::Humidity, other(i));
        monitor.handle_incoming_event("b", InputValueType::Humidity, other(100 + i));
        let shown = monitor.get_history_alias("a", &NO_DETAILS).unwrap();
        let first = if i < 3 { 0 } else { i - 2 };
        assert_eq!(headers(&shown), (first..=i).collect::<Vec<u32>>());
    }
    let shown = monitor.get_history_alias("b", &NO_DETAILS).unwrap();
    assert_eq!(headers(&shown), vec![102, 103, 104]);
}

#[test]
fn history_of_one_keeps_the_last_event() {
    let mut monitor: Monitor<u32> = Monitor::new(1);
    monitor.handle_incoming_event("a", InputValueType::Gas, other(1));
    monitor.handle_incoming_event("a", InputValueType::Gas, failure(2));
    assert_eq!(monitor.get_history_alias("a", &ALL_DETAILS), Ok(vec![failure(2)]));
}

#[test]
fn details_are_left_out_unless_asked_for() {
    let mut monitor: Monitor<u32> = Monitor::new(5);
    monitor.handle_incoming_event("a", InputValueType::Gas, failure(1));
    monitor.handle_incoming_event("a", InputValueType::Gas, update(2, InputValue::Binary(true)));
    let chain = vec!["sensor".to_string(), "bus".to_string()];
    let backtrace = Some("0: main".to_string());
    for backtraces in [None, Some(false), Some(true)] {
        for causes in [None, Some(false), Some(true)] {
            let query = HistoryQuery { error_backtraces: backtraces, error_causes: causes };
            let shown = monitor.get_history_alias("a", &query).unwrap();
            let expected = EventError {
                chain: if causes == Some(true) { chain.clone() } else { vec![] },
                backtrace: if backtraces == Some(true) { backtrace.clone() } else { None },
            };
            assert_eq!(shown[0], Event { header: 1, inner: Err(expected) });
            assert_eq!(shown[1], update(2, InputValue::Binary(true)));
        }
    }
    assert_eq!(monitor.get_history_alias("a", &ALL_DETAILS).unwrap()[0], failure(1));
}

#[test]
fn initial_values_are_published_once_and_not_kept() {
    let (mut monitor, _): (Monitor<u32>, Vec<Update>) = spawn_metrics_tasks(&universe(), 10);
    let values = vec![
        (
            "door".to_string(),
            Some(TimestampedInputValue { value: Ok(InputValue::Binary(true)) }),
        ),
        ("garage".to_string(), None),
        ("air".to_string(), Some(TimestampedInputValue { value: Err(()) })),
        (
            "door".to_string(),
            Some(TimestampedInputValue { value: Ok(InputValue::Binary(false)) }),
        ),
    ];
    let updates = monitor.populate_metrics_with_initial_values(&values);
    assert_eq!(
        updates,
        vec![
            Update::SetGauge(series(Family::InputBinary, &["door"]), Sample::Whole(1)),
            Update::SetGauge(series(Family::InputValueOk, &["door"]), Sample::Whole(1)),
            Update::SetGauge(series(Family::InputValueOk, &["air"]), Sample::Whole(0)),
        ]
    );
    assert!(!monitor.contains_alias("garage"));
    assert_eq!(monitor.get_history_alias("door", &NO_DETAILS), Ok(vec![]));
}

#[test]
fn initial_value_after_an_event_is_ignored() {
    let (mut monitor, _) = spawn_metrics_tasks(&universe(), 10);
    monitor.handle_incoming_event("air", InputValueType::Gas, other(1));
    let value = TimestampedInputValue { value: Ok(InputValue::Gas(0)) };
    assert_eq!(monitor.handle_initial_value("air", value), vec![]);
    assert_eq!(monitor.get_history_alias("air", &NO_DETAILS), Ok(vec![other(1)]));
}

#[test]
fn later_configuration_of_an_alias_replaces_the_earlier() {
    let config = UniverseConfig {
        devices: vec![DeviceConfig {
            inputs: vec![InputConfig {
                alias: "x".to_string(),
                input_type: InputValueType::Humidity,
            }],
            outputs: vec![OutputConfig { alias: "x".to_string() }],
        }],
    };
    let (mut monitor, updates): (Monitor<u32>, Vec<Update>) = spawn_metrics_tasks(&config, 4);
    assert_eq!(monitor.len(), 1);
    assert_eq!(updates.len(), 8);
    let updates =
        monitor.handle_incoming_event("x", InputValueType::Humidity, update(1, InputValue::Binary(false)));
    assert_eq!(
        updates[0],
        Update::SetGauge(series(Family::InputContinuous, &["x"]), Sample::Whole(0))
    );
}

#[test]
fn respawned_input_starts_over() {
    let mut monitor: Monitor<u32> = Monitor::new(4);
    monitor.handle_incoming_event("x", InputValueType::Gas, other(1));
    let updates = monitor.spawn(InputValueType::Gas, "x".to_string());
    assert_eq!(updates, created(Family::InputGas, "x"));
    assert_eq!(monitor.len(), 1);
    assert_eq!(monitor.get_history_alias("x", &NO_DETAILS), Ok(vec![]));
}

#[test]
fn counters_follow_the_outcomes() {
    let mut monitor: Monitor<u32> = Monitor::new(2);
    let mut ok = 0;
    let mut error = 0;
    let events = vec![
        update(1, InputValue::Binary(true)),
        failure(2),
        other(3),
        update(4, InputValue::Binary(false)),
        update(5, InputValue::Binary(true)),
    ];
    for event in events {
        for update in monitor.handle_incoming_event("x", InputValueType::Binary, event) {
            if update == Update::Increment(series(Family::InputUpdates, &["x", "ok"])) {
                ok += 1;
            }
            if update == Update::Increment(series(Family::InputUpdates, &["x", "error"])) {
                error += 1;
            }
        }
    }
    assert_eq!((ok, error), (3, 1));
}

#[test]
fn inputs_can_be_told_of_in_any_order() {
    let mut one: Monitor<u32> = Monitor::new(4);
    let mut two: Monitor<u32> = Monitor::new(4);
    let a1 = one.handle_incoming_event("a", InputValueType::Gas, update(1, InputValue::Gas(3)));
    let b1 = one.handle_incoming_event("b", InputValueType::Binary, failure(2));
    let b2 = two.handle_incoming_event("b", InputValueType::Binary, failure(2));
    let a2 = two.handle_incoming_event("a", InputValueType::Gas, update(1, InputValue::Gas(3)));
    assert_eq!((a1, b1), (a2, b2));
    for alias in ["a", "b"] {
        assert_eq!(
            one.get_history_alias(alias, &ALL_DETAILS),
            two.get_history_alias(alias, &ALL_DETAILS)
        );
    }
}

#[test]
fn events_make_aliases_known_and_replace_no_input() {
    let (mut monitor, _): (Monitor<u32>, Vec<Update>) = spawn_metrics_tasks(&universe(), 10);
    monitor.handle_incoming_event("air", InputValueType::Gas, other(1));
    monitor.handle_incoming_event("garage", InputValueType::Humidity, other(2));
    monitor.handle_incoming_event("air", InputValueType::Pressure, other(3));
    monitor.handle_incoming_event("garage", InputValueType::Gas, other(4));
    assert_eq!(monitor.len(), 5);
    for alias in ["kitchen", "door", "lamp", "air", "garage"] {
        assert!(monitor.contains_alias(alias));
    }
    let shown = monitor.get_history_alias("air", &NO_DETAILS).unwrap();
    assert_eq!(headers(&shown), vec![1, 3]);
    let shown = monitor.get_history_alias("garage", &NO_DETAILS).unwrap();
    assert_eq!(headers(&shown), vec![2, 4]);
}

#[test]
fn first_event_names_the_type() {
    let mut monitor: Monitor<u32> = Monitor::new(10);
    monitor.handle_incoming_event("garage", InputValueType::Humidity, other(1));
    let updates = monitor.handle_incoming_event(
        "garage",
        InputValueType::Gas,
        update(2, InputValue::Gas(9)),
    );
    assert_eq!(
        updates[0],
        Update::SetGauge(series(Family::InputHumidity, &["garage"]), Sample::Double(9))
    );
}

#[test]
fn last_outcome_shows() {
    let mut monitor: Monitor<u32> = Monitor::new(10);
    let mut ok = None;
    let mut value = None;
    let events = vec![
        failure(1),
        update(2, InputValue::Binary(true)),
        failure(3),
        update(4, InputValue::Binary(false)),
        other(5),
    ];
    let mut published = vec![];
    for event in events {
        published.extend(monitor.handle_incoming_event("x", InputValueType::Binary, event));
        published.extend(monitor.handle_incoming_event("y", InputValueType::Binary, failure(0)));
    }
    let late = TimestampedInputValue { value: Ok(InputValue::Binary(true)) };
    published.extend(monitor.handle_initial_value("x", late));
    for update in published {
        if let Update::SetGauge(set, sample) = update {
            if set == series(Family::InputValueOk, &["x"]) {
                ok = Some(sample);
            } else if set == series(Family::InputBinary, &["x"]) {
                value = Some(sample);
            } else {
                assert_eq!(set, series(Family::InputValueOk, &["y"]));
            }
        }
    }
    assert_eq!(ok, Some(Sample::Whole(1)));
    assert_eq!(value, Some(Sample::Whole(0)));
}

#[test]
fn opening_makes_known_once_and_replaces_nothing() {
    let mut monitor: Monitor<u32> = Monitor::new(0);
    assert_eq!(monitor.open(InputValueType::Gas, "a"), created(Family::InputGas, "a"));
    assert_eq!(monitor.open(InputValueType::Binary, "b"), created(Family::InputBinary, "b"));
    assert_eq!(monitor.open(InputValueType::Humidity, "a"), vec![]);
    assert_eq!(monitor.len(), 2);
    let value = TimestampedInputValue { value: Ok(InputValue::Gas(5)) };
    assert_eq!(
        monitor.handle_initial_value("a", value)[0],
        Update::SetGauge(series(Family::InputGas, &["a"]), Sample::Double(5))
    );
}

#[test]
fn value_stays_shown_after_an_error() {
    let (mut monitor, mut published): (Monitor<u32>, Vec<Update>) =
        spawn_metrics_tasks(&universe(), 10);
    let initial = TimestampedInputValue { value: Ok(InputValue::Gas(5)) };
    published.extend(monitor.handle_initial_value("air", initial));
    published.extend(monitor.handle_incoming_event("air", InputValueType::Gas, failure(1)));
    published.extend(monitor.handle_incoming_event("air", InputValueType::Gas, other(2)));
    let last = |family: Family, alias: &str| {
        published
            .iter()
            .filter_map(|update| match update {
                Update::SetGauge(set, sample) if *set == series(family, &[alias]) => Some(*sample),
                _ => None,
            })
            .last()
    };
    assert_eq!(last(Family::InputGas, "air"), Some(Sample::Double(5)));
    assert_eq!(last(Family::InputValueOk, "air"), Some(Sample::Whole(0)));
    assert_eq!(last(Family::InputBinary, "door"), None);
    assert_eq!(last(Family::InputValueOk, "door"), None);
}
