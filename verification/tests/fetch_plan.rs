use finchart::date::Date;
use finchart::fetch::{
    classify_response, make_uri, output_filename, pair_outcomes, plan_downloads, summarize,
    DownloadOpts, FetchEvent, FetchOutcome, Interval, MyDuration,
};
use finchart::time::format_timestamp;
use finchart::time::FixedInstant;

fn d(year: u16, month: u8, day: u8) -> Date {
    Date { year, month, day }
}

#[test]
fn interval_codes() {
    assert_eq!(Interval::Minute1.code(), "1m");
    assert_eq!(Interval::Minute5.code(), "5m");
    assert_eq!(Interval::Day1.code(), "1d");
    assert_eq!(Interval::Day5.code(), "5d");
    assert_eq!(Interval::Week1.code(), "1wk");
    assert_eq!(Interval::Month1.code(), "1mo");
    assert_eq!(Interval::Month3.code(), "3mo");
}

#[test]
fn uri_for_bounded_range() {
    let uri = make_uri(
        "GXY.AX",
        Some(d(2020, 1, 3)),
        Some(d(2020, 1, 7)),
        Interval::Day1,
    )
    .unwrap();
    assert_eq!(
        uri,
        "https://query1.finance.yahoo.com/v8/finance/chart/GXY.AX?\
         period1=1578009600&period2=1578355200&interval=1d&events=div%2Csplit"
    );
}

#[test]
fn uri_for_open_range() {
    let uri = make_uri("A2M.AX", None, None, Interval::Week1).unwrap();
    assert_eq!(
        uri,
        "https://query1.finance.yahoo.com/v8/finance/chart/A2M.AX?\
         period1=0&period2=99999999999&interval=1wk&events=div%2Csplit"
    );
}

#[test]
fn filename_with_both_dates() {
    let name = output_filename(
        "GXY.AX",
        Some(d(2020, 1, 3)),
        Some(d(2020, 1, 7)),
        d(2021, 6, 1),
    );
    assert_eq!(name, "GXY.AX_20200103_20200107.json");
}

#[test]
fn filename_defaults() {
    let today = d(2021, 6, 1);
    assert_eq!(
        output_filename("GXY.AX", None, None, today),
        "GXY.AX_init_20210601.json"
    );
    assert_eq!(
        output_filename("GXY.AX", Some(d(2020, 1, 3)), None, today),
        "GXY.AX_20200103_20210601.json"
    );
}

#[test]
fn classify_success_and_failure() {
    let ok = classify_response(
        "GXY.AX".to_string(),
        FetchEvent::Response {
            status: 200,
            body: b"{}".to_vec(),
        },
    );
    assert_eq!(
        ok,
        FetchOutcome::Success {
            symbol: "GXY.AX".to_string(),
            body: b"{}".to_vec(),
        }
    );
    let not_found = classify_response(
        "BADSYM".to_string(),
        FetchEvent::Response {
            status: 404,
            body: b"No data found".to_vec(),
        },
    );
    assert_eq!(
        not_found,
        FetchOutcome::Failure {
            status: 404,
            symbol: "BADSYM".to_string(),
            body: b"No data found".to_vec(),
        }
    );
    let fault = classify_response(
        "GXY.AX".to_string(),
        FetchEvent::Transport {
            message: "connection reset".to_string(),
        },
    );
    assert_eq!(
        fault,
        FetchOutcome::Fault {
            symbol: "GXY.AX".to_string(),
            message: "connection reset".to_string(),
        }
    );
}

/// One remote rejection does not prevent the other request in the batch
/// from succeeding: one success and one typed failure come back, each under
/// its own symbol.
#[test]
fn rejection_isolated_in_batch() {
    let symbols = vec!["GXY.AX".to_string(), "BADSYM".to_string()];
    let events = vec![
        FetchEvent::Response {
            status: 200,
            body: b"payload".to_vec(),
        },
        FetchEvent::Response {
            status: 404,
            body: b"No data found".to_vec(),
        },
    ];
    let outcomes = pair_outcomes(&symbols, events);
    assert_eq!(outcomes.len(), 2);
    assert_eq!(
        outcomes[0],
        FetchOutcome::Success {
            symbol: "GXY.AX".to_string(),
            body: b"payload".to_vec(),
        }
    );
    assert_eq!(
        outcomes[1],
        FetchOutcome::Failure {
            status: 404,
            symbol: "BADSYM".to_string(),
            body: b"No data found".to_vec(),
        }
    );
    let (succ, total) = summarize(&outcomes);
    assert_eq!((succ, total), (1, 2));
}

/// A batch of K requests yields exactly K outcomes, each under its own
/// request's symbol.
#[test]
fn one_outcome_per_request() {
    let symbols: Vec<String> = ["A", "B", "C", "D"].iter().map(|s| s.to_string()).collect();
    let events = vec![
        FetchEvent::Response {
            status: 200,
            body: vec![1],
        },
        FetchEvent::Transport {
            message: "timeout".to_string(),
        },
        FetchEvent::Response {
            status: 500,
            body: vec![],
        },
        FetchEvent::Response {
            status: 200,
            body: vec![2],
        },
    ];
    let outcomes = pair_outcomes(&symbols, events);
    assert_eq!(outcomes.len(), 4);
    let symbol_of = |o: &FetchOutcome| match o {
        FetchOutcome::Success { symbol, .. } => symbol.clone(),
        FetchOutcome::Failure { symbol, .. } => symbol.clone(),
        FetchOutcome::Fault { symbol, .. } => symbol.clone(),
    };
    for (i, o) in outcomes.iter().enumerate() {
        assert_eq!(symbol_of(o), symbols[i]);
        assert_eq!(
            symbols.iter().filter(|s| **s == symbol_of(o)).count(),
            1
        );
    }
    let (succ, total) = summarize(&outcomes);
    assert_eq!((succ, total), (2, 4));
}

#[test]
fn plan_whole_batch() {
    let opts = DownloadOpts {
        symbols: vec!["GXY.AX".to_string(), "A2M.AX".to_string()],
        start: Some(d(2020, 1, 3)),
        end: Some(d(2020, 1, 7)),
        include_pre_post: true,
        output_dir: "./target/output".to_string(),
        interval: Interval::Day1,
        rate: MyDuration { millis: 500 },
        convert: false,
    };
    let plans = plan_downloads(&opts, d(2021, 6, 1)).unwrap();
    assert_eq!(plans.len(), 2);
    assert_eq!(plans[0].symbol, "GXY.AX");
    assert_eq!(plans[0].filename, "GXY.AX_20200103_20200107.json");
    assert_eq!(
        plans[0].uri,
        "https://query1.finance.yahoo.com/v8/finance/chart/GXY.AX?\
         period1=1578009600&period2=1578355200&interval=1d&events=div%2Csplit"
    );
    assert_eq!(plans[1].symbol, "A2M.AX");
    assert_eq!(plans[1].filename, "A2M.AX_20200103_20200107.json");
}

#[test]
fn timestamp_rendering_offsets() {
    let f = |utc, off| {
        format_timestamp(FixedInstant {
            utc_seconds: utc,
            offset_seconds: off,
        })
        .unwrap()
    };
    assert_eq!(f(1578009600, 39600), "2020-01-03T11:00:00+11:00");
    assert_eq!(f(1578009600, -18000), "2020-01-02T19:00:00-05:00");
    assert_eq!(f(1578009600, 0), "2020-01-03T00:00:00+00:00");
    assert_eq!(f(0, 0), "1970-01-01T00:00:00+00:00");
    assert!(format_timestamp(FixedInstant {
        utc_seconds: 1578009600,
        offset_seconds: 86400,
    })
    .is_none());
    assert!(format_timestamp(FixedInstant {
        utc_seconds: i64::MAX,
        offset_seconds: 0,
    })
    .is_none());
}
