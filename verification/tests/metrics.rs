use shack_amqp_monitor::metrics::{input_value_to_sample, Family, Sample};
use shack_amqp_monitor::model::{InputValue, InputValueType};
use std::collections::HashSet;

const FAMILIES: [Family; 12] = [
    Family::InputBinary,
    Family::InputContinuous,
    Family::InputTemperature,
    Family::InputHumidity,
    Family::InputPressure,
    Family::InputGas,
    Family::InputValueOk,
    Family::InputUpdates,
    Family::SystemMemoryUsed,
    Family::SystemLoadAverage,
    Family::SystemCpuTemperature,
    Family::SystemNetworkStats,
];

#[test]
fn names_are_distinct() {
    let names: HashSet<&str> = FAMILIES.iter().map(|family| family.name()).collect();
    assert_eq!(names.len(), FAMILIES.len());
}

#[test]
fn families_are_described() {
    assert_eq!(Family::InputBinary.name(), "input_binary");
    assert_eq!(Family::InputBinary.help(), "binary input values by alias");
    assert_eq!(Family::InputBinary.label_names(), vec!["alias"]);
    assert_eq!(Family::InputUpdates.name(), "input_updates");
    assert_eq!(
        Family::InputUpdates.help(),
        "number of input value updates by alias and status"
    );
    assert_eq!(Family::InputUpdates.label_names(), vec!["alias", "status"]);
    assert_eq!(Family::SystemNetworkStats.label_names(), vec!["interface", "value"]);
    assert_eq!(Family::SystemLoadAverage.label_names(), vec!["duration"]);
    assert!(Family::SystemMemoryUsed.label_names().is_empty());
}

#[test]
fn each_input_type_has_its_metric() {
    assert_eq!(Family::of_input(InputValueType::Binary), Family::InputBinary);
    assert_eq!(Family::of_input(InputValueType::Temperature), Family::InputTemperature);
    assert_eq!(Family::of_input(InputValueType::Humidity), Family::InputHumidity);
    assert_eq!(Family::of_input(InputValueType::Pressure), Family::InputPressure);
    assert_eq!(Family::of_input(InputValueType::Gas), Family::InputGas);
    assert_eq!(Family::of_input(InputValueType::Continuous), Family::InputContinuous);
}

#[test]
fn values_become_samples() {
    let bits = 36.6f64.to_bits();
    assert_eq!(input_value_to_sample(&InputValue::Binary(true)), Sample::Whole(1));
    assert_eq!(input_value_to_sample(&InputValue::Binary(false)), Sample::Whole(0));
    assert_eq!(input_value_to_sample(&InputValue::Temperature(bits)), Sample::Double(bits));
    assert_eq!(input_value_to_sample(&InputValue::Humidity(bits)), Sample::Double(bits));
    assert_eq!(input_value_to_sample(&InputValue::Pressure(bits)), Sample::Double(bits));
    assert_eq!(input_value_to_sample(&InputValue::Gas(bits)), Sample::Double(bits));
    assert_eq!(input_value_to_sample(&InputValue::Continuous(65535)), Sample::Whole(65535));
}
