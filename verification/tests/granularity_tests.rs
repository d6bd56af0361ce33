use nautilus_coinbase::common::enums::CoinbaseGranularity;
use nautilus_coinbase::common::parse::{bar_type_to_granularity, GranularityError};
use nautilus_coinbase::model::{
    instrument_id_from_product, AggregationSource, BarAggregation, BarSpecification, BarType,
    PriceType,
};

fn bar_type(step: u64, aggregation: BarAggregation, source: AggregationSource) -> BarType {
    BarType {
        instrument_id: instrument_id_from_product("BTC-USD"),
        spec: BarSpecification { step, aggregation, price_type: PriceType::Last },
        aggregation_source: source,
    }
}

#[test]
fn test_bar_type_to_granularity() {
    let cases = [
        (1, BarAggregation::Minute, CoinbaseGranularity::OneMinute),
        (5, BarAggregation::Minute, CoinbaseGranularity::FiveMinute),
        (15, BarAggregation::Minute, CoinbaseGranularity::FifteenMinute),
        (30, BarAggregation::Minute, CoinbaseGranularity::ThirtyMinute),
        (1, BarAggregation::Hour, CoinbaseGranularity::OneHour),
        (2, BarAggregation::Hour, CoinbaseGranularity::TwoHour),
        (6, BarAggregation::Hour, CoinbaseGranularity::SixHour),
        (1, BarAggregation::Day, CoinbaseGranularity::OneDay),
    ];
    for (step, aggregation, expected) in cases {
        let bt = bar_type(step, aggregation, AggregationSource::External);
        assert_eq!(bar_type_to_granularity(&bt), Ok(expected));
    }
}

#[test]
fn test_bar_type_to_granularity_unsupported() {
    for (step, aggregation) in [(3, BarAggregation::Minute), (4, BarAggregation::Hour), (2, BarAggregation::Day)] {
        let bt = bar_type(step, aggregation, AggregationSource::External);
        assert_eq!(bar_type_to_granularity(&bt), Err(GranularityError::UnsupportedStep));
    }
}

#[test]
fn test_bar_type_to_granularity_errors() {
    let internal = bar_type(1, BarAggregation::Minute, AggregationSource::Internal);
    assert_eq!(bar_type_to_granularity(&internal), Err(GranularityError::NotExternal));
    let tick = bar_type(100, BarAggregation::Tick, AggregationSource::External);
    assert_eq!(bar_type_to_granularity(&tick), Err(GranularityError::UnsupportedAggregation));
}
