//! Common parsing utilities for the Coinbase adapter.

use crate::common::enums::CoinbaseGranularity;
use crate::model::{AggregationSource, BarAggregation, BarType};
use vstd::prelude::*;

verus! {

/// Why a bar type has no Coinbase granularity.
#[derive(Debug, Clone, Copy, PartialEq, Eq, Structural)]
pub enum GranularityError {
    /// Only externally aggregated bars are supported.
    NotExternal,
    /// The step is not offered for the aggregation.
    UnsupportedStep,
    /// The aggregation is not minutes, hours or days.
    UnsupportedAggregation,
}

/// The Coinbase granularity of a bar aggregation and step, if Coinbase offers it.
pub open spec fn spec_granularity(aggregation: BarAggregation, step: u64) -> Result<
    CoinbaseGranularity,
    GranularityError,
> {
    match aggregation {
        BarAggregation::Minute => if step == 1 {
            Ok(CoinbaseGranularity::OneMinute)
        } else if step == 5 {
            Ok(CoinbaseGranularity::FiveMinute)
        } else if step == 15 {
            Ok(CoinbaseGranularity::FifteenMinute)
        } else if step == 30 {
            Ok(CoinbaseGranularity::ThirtyMinute)
        } else {
            Err(GranularityError::UnsupportedStep)
        },
        BarAggregation::Hour => if step == 1 {
            Ok(CoinbaseGranularity::OneHour)
        } else if step == 2 {
            Ok(CoinbaseGranularity::TwoHour)
        } else if step == 6 {
            Ok(CoinbaseGranularity::SixHour)
        } else {
            Err(GranularityError::UnsupportedStep)
        },
        BarAggregation::Day => if step == 1 {
            Ok(CoinbaseGranularity::OneDay)
        } else {
            Err(GranularityError::UnsupportedStep)
        },
        _ => Err(GranularityError::UnsupportedAggregation),
    }
}

/// Coinbase offers candles of 1, 5, 15 and 30 minutes, of 1, 2 and 6 hours, and of one
/// day, each under its own granularity; another step of those aggregations is an
/// unsupported step, and every other aggregation (seconds, weeks, months, ticks, ...) is
/// unsupported.
pub proof fn lemma_granularity_table(aggregation: BarAggregation, step: u64)
    ensures
        (aggregation is Minute && step == 1 ==> spec_granularity(aggregation, step) == Ok::<CoinbaseGranularity, GranularityError>(CoinbaseGranularity::OneMinute)),
        (aggregation is Minute && step == 5 ==> spec_granularity(aggregation, step) == Ok::<CoinbaseGranularity, GranularityError>(CoinbaseGranularity::FiveMinute)),
        (aggregation is Minute && step == 15 ==> spec_granularity(aggregation, step) == Ok::<CoinbaseGranularity, GranularityError>(CoinbaseGranularity::FifteenMinute)),
        (aggregation is Minute && step == 30 ==> spec_granularity(aggregation, step) == Ok::<CoinbaseGranularity, GranularityError>(CoinbaseGranularity::ThirtyMinute)),
        (aggregation is Hour && step == 1 ==> spec_granularity(aggregation, step) == Ok::<CoinbaseGranularity, GranularityError>(CoinbaseGranularity::OneHour)),
        (aggregation is Hour && step == 2 ==> spec_granularity(aggregation, step) == Ok::<CoinbaseGranularity, GranularityError>(CoinbaseGranularity::TwoHour)),
        (aggregation is Hour && step == 6 ==> spec_granularity(aggregation, step) == Ok::<CoinbaseGranularity, GranularityError>(CoinbaseGranularity::SixHour)),
        (aggregation is Day && step == 1 ==> spec_granularity(aggregation, step) == Ok::<CoinbaseGranularity, GranularityError>(CoinbaseGranularity::OneDay)),
        (aggregation is Minute && !(step == 1 || step == 5 || step == 15 || step == 30) ==> spec_granularity(aggregation, step) == Err::<CoinbaseGranularity, GranularityError>(GranularityError::UnsupportedStep)),
        (aggregation is Hour && !(step == 1 || step == 2 || step == 6) ==> spec_granularity(aggregation, step) == Err::<CoinbaseGranularity, GranularityError>(GranularityError::UnsupportedStep)),
        (aggregation is Day && step != 1 ==> spec_granularity(aggregation, step) == Err::<CoinbaseGranularity, GranularityError>(GranularityError::UnsupportedStep)),
        (!(aggregation is Minute || aggregation is Hour || aggregation is Day) ==> spec_granularity(aggregation, step) == Err::<CoinbaseGranularity, GranularityError>(GranularityError::UnsupportedAggregation)),
{
}

/// Converts a bar type to a Coinbase granularity.
///
/// Fails with `NotExternal` unless the bars are aggregated externally, and otherwise when
/// Coinbase offers no candles of that aggregation and step.
pub fn bar_type_to_granularity(bar_type: &BarType) -> (r: Result<CoinbaseGranularity, GranularityError>)
    ensures
        bar_type.aggregation_source != AggregationSource::External ==> r == Err::<
            CoinbaseGranularity,
            GranularityError,
        >(GranularityError::NotExternal),
        bar_type.aggregation_source == AggregationSource::External ==> r == spec_granularity(
            bar_type.spec.aggregation,
            bar_type.spec.step,
        ),
        bar_type.aggregation_source == AggregationSource::External ==> (bar_type.spec.aggregation is Minute && bar_type.spec.step == 1 ==> r == Ok::<CoinbaseGranularity, GranularityError>(CoinbaseGranularity::OneMinute)),
        bar_type.aggregation_source == AggregationSource::External ==> (bar_type.spec.aggregation is Minute && bar_type.spec.step == 5 ==> r == Ok::<CoinbaseGranularity, GranularityError>(CoinbaseGranularity::FiveMinute)),
        bar_type.aggregation_source == AggregationSource::External ==> (bar_type.spec.aggregation is Minute && bar_type.spec.step == 15 ==> r == Ok::<CoinbaseGranularity, GranularityError>(CoinbaseGranularity::FifteenMinute)),
        bar_type.aggregation_source == AggregationSource::External ==> (bar_type.spec.aggregation is Minute && bar_type.spec.step == 30 ==> r == Ok::<CoinbaseGranularity, GranularityError>(CoinbaseGranularity::ThirtyMinute)),
        bar_type.aggregation_source == AggregationSource::External ==> (bar_type.spec.aggregation is Hour && bar_type.spec.step == 1 ==> r == Ok::<CoinbaseGranularity, GranularityError>(CoinbaseGranularity::OneHour)),
        bar_type.aggregation_source == AggregationSource::External ==> (bar_type.spec.aggregation is Hour && bar_type.spec.step == 2 ==> r == Ok::<CoinbaseGranularity, GranularityError>(CoinbaseGranularity::TwoHour)),
        bar_type.aggregation_source == AggregationSource::External ==> (bar_type.spec.aggregation is Hour && bar_type.spec.step == 6 ==> r == Ok::<CoinbaseGranularity, GranularityError>(CoinbaseGranularity::SixHour)),
        bar_type.aggregation_source == AggregationSource::External ==> (bar_type.spec.aggregation is Day && bar_type.spec.step == 1 ==> r == Ok::<CoinbaseGranularity, GranularityError>(CoinbaseGranularity::OneDay)),
        bar_type.aggregation_source == AggregationSource::External ==> (bar_type.spec.aggregation is Minute && !(bar_type.spec.step == 1 || bar_type.spec.step == 5 || bar_type.spec.step == 15 || bar_type.spec.step == 30) ==> r == Err::<CoinbaseGranularity, GranularityError>(GranularityError::UnsupportedStep)),
        bar_type.aggregation_source == AggregationSource::External ==> (bar_type.spec.aggregation is Hour && !(bar_type.spec.step == 1 || bar_type.spec.step == 2 || bar_type.spec.step == 6) ==> r == Err::<CoinbaseGranularity, GranularityError>(GranularityError::UnsupportedStep)),
        bar_type.aggregation_source == AggregationSource::External ==> (bar_type.spec.aggregation is Day && bar_type.spec.step != 1 ==> r == Err::<CoinbaseGranularity, GranularityError>(GranularityError::UnsupportedStep)),
        bar_type.aggregation_source == AggregationSource::External ==> (!(bar_type.spec.aggregation is Minute || bar_type.spec.aggregation is Hour || bar_type.spec.aggregation is Day) ==> r == Err::<CoinbaseGranularity, GranularityError>(GranularityError::UnsupportedAggregation)),
{
    let spec = bar_type.spec;
    match bar_type.aggregation_source {
        AggregationSource::External => {},
        AggregationSource::Internal => return Err(GranularityError::NotExternal),
    }
    let step = spec.step;
    match spec.aggregation {
        BarAggregation::Minute => if step == 1 {
            Ok(CoinbaseGranularity::OneMinute)
        } else if step == 5 {
            Ok(CoinbaseGranularity::FiveMinute)
        } else if step == 15 {
            Ok(CoinbaseGranularity::FifteenMinute)
        } else if step == 30 {
            Ok(CoinbaseGranularity::ThirtyMinute)
        } else {
            Err(GranularityError::UnsupportedStep)
        },
        BarAggregation::Hour => if step == 1 {
            Ok(CoinbaseGranularity::OneHour)
        } else if step == 2 {
            Ok(CoinbaseGranularity::TwoHour)
        } else if step == 6 {
            Ok(CoinbaseGranularity::SixHour)
        } else {
            Err(GranularityError::UnsupportedStep)
        },
        BarAggregation::Day => if step == 1 {
            Ok(CoinbaseGranularity::OneDay)
        } else {
            Err(GranularityError::UnsupportedStep)
        },
        _ => Err(GranularityError::UnsupportedAggregation),
    }
}

} // verus!
