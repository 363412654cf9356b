use finchart::chart::{
    AdjClose, Chart, ChartWrapper, CurrentTradePeriod, Indicators, OHLCV, TradePeriod, V8Meta,
    V8Result,
};
use finchart::csv::{convert_to_csv, dataset_to_csv, parse_csv, render_csv};
use finchart::chart::{chart_to_datasets, DataSet, Record};
use finchart::time::FixedInstant;

fn record(utc: i64, off: i32, volume: u64, px: &str) -> Record {
    Record {
        timestamp: FixedInstant {
            utc_seconds: utc,
            offset_seconds: off,
        },
        volume,
        high: px.to_string(),
        low: px.to_string(),
        open: px.to_string(),
        close: px.to_string(),
        adjclose: px.to_string(),
    }
}

fn small_meta() -> V8Meta {
    let tp = TradePeriod {
        timezone: "UTC".to_string(),
        start: 0,
        end: 0,
        gmtoffset: 0,
    };
    V8Meta {
        currency: "USD".to_string(),
        symbol: "TST".to_string(),
        exchange_name: "NYQ".to_string(),
        instrument_type: "EQUITY".to_string(),
        first_trade_date: 0,
        regular_market_time: 0,
        gmtoffset: 0,
        timezone: "UTC".to_string(),
        exchange_timezone_name: "UTC".to_string(),
        regular_market_price: "1".to_string(),
        chart_previous_close: "1".to_string(),
        price_hint: "2".to_string(),
        current_trading_period: CurrentTradePeriod {
            pre: tp.clone(),
            regular: tp.clone(),
            post: tp,
        },
        data_granularity: "1d".to_string(),
        range: "1mo".to_string(),
        valid_ranges: vec![],
    }
}

#[test]
fn render_plain_rows() {
    let rows = vec![
        vec!["a".to_string(), "b".to_string()],
        vec!["c".to_string(), "d".to_string()],
    ];
    assert_eq!(render_csv(&rows), "a,b\nc,d\n");
}

#[test]
fn render_quotes_when_needed() {
    let rows = vec![vec![
        "plain".to_string(),
        "with,comma".to_string(),
        "with\"quote".to_string(),
        "with\nnewline".to_string(),
    ]];
    assert_eq!(
        render_csv(&rows),
        "plain,\"with,comma\",\"with\"\"quote\",\"with\nnewline\"\n"
    );
}

#[test]
fn parse_splits_rows_and_fields() {
    let parsed = parse_csv("a,b\nc,d\n").unwrap();
    assert_eq!(
        parsed,
        vec![
            vec!["a".to_string(), "b".to_string()],
            vec!["c".to_string(), "d".to_string()],
        ]
    );
}

#[test]
fn parse_rejects_unterminated_row() {
    assert!(parse_csv("a,b\nc,d").is_none());
}

#[test]
fn empty_fields_round_trip() {
    assert_eq!(
        parse_csv("a,,b\n").unwrap(),
        vec![vec!["a".to_string(), "".to_string(), "b".to_string()]]
    );
    let rows = vec![vec!["".to_string()]];
    let text = render_csv(&rows);
    assert_eq!(text, "\n");
    assert_eq!(parse_csv(&text).unwrap(), rows);
}

#[test]
fn parse_empty_text() {
    let parsed = parse_csv("").unwrap();
    assert!(parsed.is_empty());
}

/// Rendering and re-parsing rows of plain fields reproduces them exactly.
#[test]
fn round_trip_plain_rows() {
    let rows = vec![
        vec![
            "2020-01-03T11:00:00+11:00".to_string(),
            "1156241".to_string(),
            "0.9".to_string(),
        ],
        vec![
            "2020-01-07T11:00:00+11:00".to_string(),
            "3213050".to_string(),
            "0.865".to_string(),
        ],
    ];
    let text = render_csv(&rows);
    assert_eq!(parse_csv(&text).unwrap(), rows);
}

#[test]
fn dataset_renders_header_and_rows() {
    let ds = DataSet {
        records: vec![record(1578009600, 39600, 42, "0.9")],
        meta: small_meta(),
    };
    let text = dataset_to_csv(&ds).unwrap();
    assert_eq!(
        text,
        "timestamp,volume,high,low,open,close,adjclose\n\
         2020-01-03T11:00:00+11:00,42,0.9,0.9,0.9,0.9,0.9\n"
    );
}

#[test]
fn dataset_rejects_unrenderable_timestamp() {
    let ds = DataSet {
        records: vec![record(i64::MAX, 0, 1, "1")],
        meta: small_meta(),
    };
    assert!(dataset_to_csv(&ds).is_none());
}

/// A rendered dataset re-parses to its own rows: header first, then one row
/// per record with the exact field texts.
#[test]
fn dataset_round_trip() {
    let ds = DataSet {
        records: vec![
            record(1578009600, 39600, 42, "0.9"),
            record(1578355200, 39600, 7, "0.865"),
        ],
        meta: small_meta(),
    };
    let text = dataset_to_csv(&ds).unwrap();
    let rows = parse_csv(&text).unwrap();
    assert_eq!(rows.len(), 3);
    assert_eq!(
        rows[0],
        vec![
            "timestamp".to_string(),
            "volume".to_string(),
            "high".to_string(),
            "low".to_string(),
            "open".to_string(),
            "close".to_string(),
            "adjclose".to_string(),
        ]
    );
    assert_eq!(rows[1][0], "2020-01-03T11:00:00+11:00");
    assert_eq!(rows[1][1], "42");
    assert_eq!(rows[2][0], "2020-01-07T11:00:00+11:00");
    assert_eq!(rows[2][6], "0.865");
    assert_eq!(finchart::num::parse_u64(&rows[1][1]), Some(42));
    assert_eq!(finchart::num::parse_u64(&rows[2][1]), Some(7));
}

fn one_record_chart() -> Chart {
    let mut m = small_meta();
    m.gmtoffset = 0;
    Chart {
        result: vec![V8Result {
            meta: m,
            timestamp: vec![0],
            indicators: Indicators {
                quote: vec![OHLCV {
                    volume: vec![5],
                    high: vec!["2.5".to_string()],
                    close: vec!["2.25".to_string()],
                    low: vec!["2".to_string()],
                    open: vec!["2.125".to_string()],
                }],
                adjclose: vec![AdjClose {
                    adjclose: vec!["2.25".to_string()],
                }],
            },
        }],
        error: None,
    }
}

/// `write_to_csv`'s verified half: a well-formed dataset always renders.
#[test]
fn test_write_csv() {
    let ds_vec = chart_to_datasets(one_record_chart());
    let ds = ds_vec[0].as_ref().unwrap();
    let result = dataset_to_csv(ds);
    assert!(result.is_some());
}

#[test]
fn convert_whole_payload() {
    let texts = convert_to_csv(ChartWrapper {
        chart: one_record_chart(),
    });
    assert_eq!(texts.len(), 1);
    let text = texts[0].as_ref().unwrap();
    assert_eq!(
        text,
        "timestamp,volume,high,low,open,close,adjclose\n\
         1970-01-01T00:00:00+00:00,5,2.5,2,2.125,2.25,2.25\n"
    );
}
