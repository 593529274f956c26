//! Where the sender takes its payloads from: fixed bytes, fixed metrics, or
//! one line of metrics per report.
//!
//! Metrics travel as single-precision numbers. Here each is held by its bit
//! pattern, which is all that the payload needs of it.

use crate::args::{arg_value, find_arg_value, has_flag, has_flag_spec, texts};
use crate::hex::{parse_payload_hex, parse_payload_hex_spec, HexError};
use crate::report::{build_metrics_payload, metrics_payload};
use vstd::prelude::*;

verus! {

/// The metrics that make one payload: temperature, power, utilization.
pub const METRIC_COUNT: usize = 3;

/// Three metrics, each by the bit pattern of its single-precision value.
#[derive(Clone, Copy, Debug, PartialEq, Eq, Structural)]
pub struct Metrics {
    pub temperature: u32,
    pub power: u32,
    pub utilization: u32,
}

/// What the arguments say about the source of payloads.
#[derive(Debug, PartialEq, Eq)]
pub enum SourcePlan {
    /// `--payload` gave these bytes, to be sent every time.
    Raw(Vec<u8>),
    /// `--stdin`: every report takes one line of three metrics.
    Stdin,
    /// Neither: the metrics are in `--temp`, `--power` and `--util`.
    FixedMetrics,
}

/// A [`SourcePlan`] with its bytes as a sequence.
pub enum SourcePlanView {
    Raw(Seq<u8>),
    Stdin,
    FixedMetrics,
}

impl View for SourcePlan {
    type V = SourcePlanView;

    open spec fn view(&self) -> SourcePlanView {
        match self {
            SourcePlan::Raw(bytes) => SourcePlanView::Raw(bytes@),
            SourcePlan::Stdin => SourcePlanView::Stdin,
            SourcePlan::FixedMetrics => SourcePlanView::FixedMetrics,
        }
    }
}

/// A line of metrics that does not hold exactly three values.
#[derive(Clone, Copy, Debug, PartialEq, Eq, Structural)]
pub struct WrongMetricCount {
    /// How many values the line held.
    pub found: usize,
}

/// What `plan_source` returns for the given arguments: `--payload` comes
/// first and must then be good; `--stdin` comes second.
pub open spec fn plan_source_spec(items: Seq<Seq<char>>) -> Result<SourcePlanView, HexError> {
    match arg_value(items, "--payload"@) {
        Some(text) => match parse_payload_hex_spec(text) {
            Ok(bytes) => Ok(SourcePlanView::Raw(bytes)),
            Err(e) => Err(e),
        },
        None => if has_flag_spec(items, "--stdin"@) {
            Ok(SourcePlanView::Stdin)
        } else {
            Ok(SourcePlanView::FixedMetrics)
        },
    }
}

/// Decides from the arguments where payloads come from.
pub fn plan_source(args: &[String]) -> (result: Result<SourcePlan, HexError>)
    ensures
        match result {
            Ok(plan) => plan_source_spec(texts(args@)) == Ok::<SourcePlanView, HexError>(plan@),
            Err(e) => plan_source_spec(texts(args@)) == Err::<SourcePlanView, HexError>(e),
        },
{
    match find_arg_value(args, "--payload") {
        Some(text) => match parse_payload_hex(text) {
            Ok(bytes) => Ok(SourcePlan::Raw(bytes)),
            Err(e) => Err(e),
        },
        None => {
            if has_flag(args, "--stdin") {
                Ok(SourcePlan::Stdin)
            } else {
                Ok(SourcePlan::FixedMetrics)
            }
        },
    }
}

impl Metrics {
    /// The 12-byte payload of these metrics.
    pub fn payload(&self) -> (payload: Vec<u8>)
        ensures
            payload@ == metrics_payload(self.temperature, self.power, self.utilization),
    {
        build_metrics_payload(self.temperature, self.power, self.utilization)
    }
}

/// The payload of one line of metrics, given the bit patterns of the values
/// found on it: exactly three are wanted, in the order temperature, power,
/// utilization.
pub fn metrics_from_values(values: &[u32]) -> (result: Result<Vec<u8>, WrongMetricCount>)
    ensures
        values@.len() == 3 ==> result is Ok && result->Ok_0@ == metrics_payload(
            values@[0],
            values@[1],
            values@[2],
        ),
        values@.len() != 3 ==> result == Err::<Vec<u8>, WrongMetricCount>(
            WrongMetricCount { found: values@.len() as usize },
        ),
{
    if values.len() != METRIC_COUNT {
        return Err(WrongMetricCount { found: values.len() });
    }
    Ok(build_metrics_payload(values[0], values[1], values[2]))
}

impl WrongMetricCount {
    /// The error in words, as it is shown to the user.
    pub fn message(&self) -> (message: &'static str)
        ensures
            message@ == "stdin must provide three values: temp, power, util."@,
    {
        "stdin must provide three values: temp, power, util."
    }
}

} // verus!
