use finchart::chart::{
    chart_to_datasets, AdjClose, Chart, ChartWrapper, CurrentTradePeriod, DataSet, Indicators,
    OHLCV, SegmentError, TradePeriod, V8Meta, V8Result,
};
use finchart::csv::convert_to_csv;
use finchart::time::FixedInstant;

fn trade_period() -> TradePeriod {
    TradePeriod {
        timezone: "AEDT".to_string(),
        start: 1577829600,
        end: 1577853000,
        gmtoffset: 39600,
    }
}

fn meta(gmtoffset: i32) -> V8Meta {
    V8Meta {
        currency: "AUD".to_string(),
        symbol: "GXY.AX".to_string(),
        exchange_name: "ASX".to_string(),
        instrument_type: "EQUITY".to_string(),
        first_trade_date: 1274319000,
        regular_market_time: 1578368914,
        gmtoffset,
        timezone: "AEDT".to_string(),
        exchange_timezone_name: "Australia/Sydney".to_string(),
        regular_market_price: "0.865".to_string(),
        chart_previous_close: "0.9".to_string(),
        price_hint: "4".to_string(),
        current_trading_period: CurrentTradePeriod {
            pre: trade_period(),
            regular: trade_period(),
            post: trade_period(),
        },
        data_granularity: "1d".to_string(),
        range: "".to_string(),
        valid_ranges: vec!["1d".to_string(), "5d".to_string(), "max".to_string()],
    }
}

fn three_sample_segment(gmtoffset: i32) -> V8Result {
    V8Result {
        meta: meta(gmtoffset),
        timestamp: vec![1578009600, 1578268800, 1578355200],
        indicators: Indicators {
            quote: vec![OHLCV {
                volume: vec![1156241, 2734163, 3213050],
                high: vec!["0.9".to_string(), "0.92".to_string(), "0.895".to_string()],
                close: vec!["0.9".to_string(), "0.875".to_string(), "0.865".to_string()],
                low: vec!["0.88".to_string(), "0.865".to_string(), "0.86".to_string()],
                open: vec!["0.89".to_string(), "0.92".to_string(), "0.88".to_string()],
            }],
            adjclose: vec![AdjClose {
                adjclose: vec!["0.9".to_string(), "0.875".to_string(), "0.865".to_string()],
            }],
        },
    }
}

fn one_segment_chart(gmtoffset: i32) -> Chart {
    Chart {
        result: vec![three_sample_segment(gmtoffset)],
        error: None,
    }
}

/// One well-formed segment of length three yields exactly one dataset with
/// exactly three records, in timestamp order.
#[test]
fn test_from_chart() {
    let ds_vec = chart_to_datasets(one_segment_chart(39600));
    assert_eq!(ds_vec.len(), 1);
    let ds: &DataSet = ds_vec[0].as_ref().unwrap();
    assert_eq!(ds.records.len(), 3);
    assert_eq!(ds.records[0].timestamp.utc_seconds, 1578009600);
    assert_eq!(ds.records[1].timestamp.utc_seconds, 1578268800);
    assert_eq!(ds.records[2].timestamp.utc_seconds, 1578355200);
}

/// The end-to-end shape: the requested range comes back as one dataset of
/// three chronologically ordered records carrying the metadata unchanged.
#[test]
fn end_to_end_three_records() {
    let ds_vec = chart_to_datasets(one_segment_chart(39600));
    assert_eq!(ds_vec.len(), 1);
    let ds = ds_vec[0].as_ref().unwrap();
    assert_eq!(ds.records.len(), 3);
    assert!(ds.records[0].timestamp.utc_seconds < ds.records[1].timestamp.utc_seconds);
    assert!(ds.records[1].timestamp.utc_seconds < ds.records[2].timestamp.utc_seconds);
    assert_eq!(ds.meta.currency, "AUD");
    assert_eq!(ds.meta.exchange_name, "ASX");
    assert_eq!(ds.meta.symbol, "GXY.AX");
    assert_eq!(ds.records[0].volume, 1156241);
    assert_eq!(ds.records[0].open, "0.89");
    assert_eq!(ds.records[0].high, "0.9");
    assert_eq!(ds.records[0].low, "0.88");
    assert_eq!(ds.records[0].close, "0.9");
    assert_eq!(ds.records[0].adjclose, "0.9");
}

/// Positive offsets shift east, negative west, zero stays UTC; the offset is
/// taken signed, never by magnitude.
#[test]
fn offset_sign_convention() {
    for &off in &[39600i32, -18000, 0] {
        let ds_vec = chart_to_datasets(one_segment_chart(off));
        let ds = ds_vec[0].as_ref().unwrap();
        assert_eq!(
            ds.records[0].timestamp,
            FixedInstant {
                utc_seconds: 1578009600,
                offset_seconds: off,
            }
        );
    }
}

/// Transforming the same payload twice yields identical output.
#[test]
fn transform_idempotent() {
    let a = chart_to_datasets(one_segment_chart(39600));
    let b = chart_to_datasets(one_segment_chart(39600));
    assert_eq!(a, b);
    let ta = convert_to_csv(ChartWrapper {
        chart: one_segment_chart(39600),
    });
    let tb = convert_to_csv(ChartWrapper {
        chart: one_segment_chart(39600),
    });
    assert_eq!(ta, tb);
}

#[test]
fn mismatched_columns_rejected() {
    let mut seg = three_sample_segment(39600);
    seg.indicators.quote[0].low.pop();
    let ds_vec = chart_to_datasets(Chart {
        result: vec![seg],
        error: None,
    });
    assert_eq!(ds_vec.len(), 1);
    assert_eq!(ds_vec[0], Err(SegmentError::ColumnLengths));
}

#[test]
fn wrong_group_counts_rejected() {
    let mut seg = three_sample_segment(39600);
    let extra = seg.indicators.quote[0].clone();
    seg.indicators.quote.push(extra);
    let ds_vec = chart_to_datasets(Chart {
        result: vec![seg],
        error: None,
    });
    assert_eq!(ds_vec[0], Err(SegmentError::QuoteGroups { count: 2 }));

    let mut seg2 = three_sample_segment(39600);
    seg2.indicators.adjclose.clear();
    let ds_vec2 = chart_to_datasets(Chart {
        result: vec![seg2],
        error: None,
    });
    assert_eq!(ds_vec2[0], Err(SegmentError::AdjCloseGroups { count: 0 }));
}

#[test]
fn offset_out_of_range_rejected() {
    let mut seg = three_sample_segment(39600);
    seg.meta.gmtoffset = 86400;
    let ds_vec = chart_to_datasets(Chart {
        result: vec![seg],
        error: None,
    });
    assert_eq!(
        ds_vec[0],
        Err(SegmentError::OffsetOutOfRange { gmtoffset: 86400 })
    );
}

#[test]
fn timestamp_out_of_range_rejected() {
    let mut seg = three_sample_segment(39600);
    seg.timestamp[1] = i64::MAX;
    let ds_vec = chart_to_datasets(Chart {
        result: vec![seg],
        error: None,
    });
    assert_eq!(ds_vec[0], Err(SegmentError::TimestampOutOfRange));
}

/// A bad segment never affects its siblings.
#[test]
fn segment_errors_isolated() {
    let good = three_sample_segment(39600);
    let mut bad = three_sample_segment(39600);
    bad.indicators.quote[0].volume.pop();
    let ds_vec = chart_to_datasets(Chart {
        result: vec![bad, good],
        error: None,
    });
    assert_eq!(ds_vec.len(), 2);
    assert_eq!(ds_vec[0], Err(SegmentError::ColumnLengths));
    assert_eq!(ds_vec[1].as_ref().unwrap().records.len(), 3);
}

#[test]
fn empty_chart_empty_output() {
    let ds_vec = chart_to_datasets(Chart {
        result: vec![],
        error: Some("No data found".to_string()),
    });
    assert!(ds_vec.is_empty());
}
