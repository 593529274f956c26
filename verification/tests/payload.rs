use ryzenmaster_monitor::hex::HexError;
use ryzenmaster_monitor::payload::{
    metrics_from_values, plan_source, Metrics, SourcePlan, WrongMetricCount,
};

fn args(items: &[&str]) -> Vec<String> {
    items.iter().map(|s| s.to_string()).collect()
}

#[test]
fn payload_argument_comes_first() {
    let a = args(&["--stdin", "--payload", "01 02 ff", "--temp", "1"]);
    assert_eq!(plan_source(&a), Ok(SourcePlan::Raw(vec![1, 2, 255])));
}

#[test]
fn a_bad_payload_is_an_error_even_with_other_sources() {
    assert_eq!(plan_source(&args(&["--payload", "abc", "--stdin"])), Err(HexError::OddDigits));
    assert_eq!(plan_source(&args(&["--payload", "zz"])), Err(HexError::Empty));
    assert_eq!(
        plan_source(&args(&["--payload", &"00".repeat(70)])),
        Err(HexError::TooLarge { length: 70 })
    );
}

#[test]
fn stdin_comes_second_and_fixed_metrics_last() {
    assert_eq!(plan_source(&args(&["--temp", "1", "--stdin"])), Ok(SourcePlan::Stdin));
    assert_eq!(plan_source(&args(&["--temp", "1"])), Ok(SourcePlan::FixedMetrics));
    assert_eq!(plan_source(&[]), Ok(SourcePlan::FixedMetrics));
    // A payload name without a value is no payload.
    assert_eq!(plan_source(&args(&["--stdin", "--payload"])), Ok(SourcePlan::Stdin));
}

#[test]
fn metrics_payload_of_three_values() {
    let bits = [45.0f32.to_bits(), 120.0f32.to_bits(), 37.5f32.to_bits()];
    let mut expected = Vec::new();
    for b in bits {
        expected.extend_from_slice(&f32::from_bits(b).to_le_bytes());
    }
    assert_eq!(metrics_from_values(&bits), Ok(expected.clone()));
    let metrics = Metrics { temperature: bits[0], power: bits[1], utilization: bits[2] };
    assert_eq!(metrics.payload(), expected);
}

#[test]
fn any_other_number_of_values_is_refused() {
    assert_eq!(metrics_from_values(&[]), Err(WrongMetricCount { found: 0 }));
    assert_eq!(metrics_from_values(&[1, 2]), Err(WrongMetricCount { found: 2 }));
    assert_eq!(metrics_from_values(&[1, 2, 3, 4]), Err(WrongMetricCount { found: 4 }));
    assert_eq!(
        WrongMetricCount { found: 2 }.message(),
        "stdin must provide three values: temp, power, util."
    );
}
