//! The columnar chart payload and its row-oriented transformation.
//!
//! A decoded provider response holds, per segment, a metadata block, a
//! sequence of epoch-second timestamps, and parallel value columns. The
//! transformer reconstructs one `Record` per timestamp, pairing the columns
//! positionally and attaching a fixed-offset timestamp built from the
//! segment's signed UTC offset, and carries the metadata through unchanged.
//!
//! Price columns are carried as decimal text, exactly as a serializer would
//! render them; the transformer never reads a price, it only moves it, so
//! the text form keeps the pipeline byte-deterministic.
//!
//! A segment whose columns disagree in length, or whose offset or timestamps
//! lie outside the renderable range, is rejected with a `SegmentError` rather
//! than silently truncated; the error names the first check that failed, and
//! one bad segment never affects its siblings.

use vstd::prelude::*;

use crate::time::{valid_offset, ts_renderable, FixedInstant};

verus! {

#[derive(Debug, Clone, PartialEq)]
pub struct TradePeriod {
    pub timezone: String,
    pub start: u64,
    pub end: u64,
    pub gmtoffset: i32,
}

#[derive(Debug, Clone, PartialEq)]
pub struct CurrentTradePeriod {
    pub pre: TradePeriod,
    pub regular: TradePeriod,
    pub post: TradePeriod,
}

/// Per-segment metadata, carried through the transformation unchanged.
/// The three price hints are decimal text, like the price columns.
#[derive(Debug, Clone, PartialEq)]
pub struct V8Meta {
    pub currency: String,
    pub symbol: String,
    pub exchange_name: String,
    pub instrument_type: String,
    pub first_trade_date: u64,
    pub regular_market_time: u64,
    pub gmtoffset: i32,
    pub timezone: String,
    pub exchange_timezone_name: String,
    pub regular_market_price: String,
    pub chart_previous_close: String,
    pub price_hint: String,
    pub current_trading_period: CurrentTradePeriod,
    pub data_granularity: String,
    pub range: String,
    pub valid_ranges: Vec<String>,
}

/// The grouped value columns; each must run parallel to the timestamps.
#[derive(Debug, Clone, PartialEq)]
pub struct OHLCV {
    pub volume: Vec<u64>,
    pub high: Vec<String>,
    pub close: Vec<String>,
    pub low: Vec<String>,
    pub open: Vec<String>,
}

#[derive(Debug, Clone, PartialEq)]
pub struct AdjClose {
    pub adjclose: Vec<String>,
}

#[derive(Debug, Clone, PartialEq)]
pub struct Indicators {
    pub quote: Vec<OHLCV>,
    pub adjclose: Vec<AdjClose>,
}

/// One chart segment: one symbol's complete time series.
#[derive(Debug, Clone, PartialEq)]
pub struct V8Result {
    pub meta: V8Meta,
    pub timestamp: Vec<i64>,
    pub indicators: Indicators,
}

#[derive(Debug, Clone, PartialEq)]
pub struct Chart {
    pub result: Vec<V8Result>,
    pub error: Option<String>,
}

#[derive(Debug, Clone, PartialEq)]
pub struct ChartWrapper {
    pub chart: Chart,
}

/// One reconstructed observation.
#[derive(Debug, Clone, PartialEq)]
pub struct Record {
    pub timestamp: FixedInstant,
    pub volume: u64,
    pub high: String,
    pub low: String,
    pub open: String,
    pub close: String,
    pub adjclose: String,
}

/// One segment's metadata plus its chronologically ordered records.
#[derive(Debug, Clone, PartialEq)]
pub struct DataSet {
    pub records: Vec<Record>,
    pub meta: V8Meta,
}

/// Why a segment was rejected; the first failed check, in the order
/// the variants are listed.
#[derive(Clone, Copy, Debug, PartialEq, Eq, Structural)]
pub enum SegmentError {
    /// Not exactly one grouped quote column set.
    QuoteGroups { count: usize },
    /// Not exactly one adjusted-close column set.
    AdjCloseGroups { count: usize },
    /// Some column's length differs from the timestamp count.
    ColumnLengths,
    /// The UTC offset does not lie strictly within one day.
    OffsetOutOfRange { gmtoffset: i32 },
    /// A timestamp lies outside the renderable range.
    TimestampOutOfRange,
}

/// Every column runs parallel to the timestamps.
pub open spec fn columns_aligned(seg: V8Result) -> bool {
    let q = seg.indicators.quote@[0];
    let a = seg.indicators.adjclose@[0];
    let n = seg.timestamp@.len();
    &&& q.volume@.len() == n
    &&& q.open@.len() == n
    &&& q.high@.len() == n
    &&& q.low@.len() == n
    &&& q.close@.len() == n
    &&& a.adjclose@.len() == n
}

/// A segment the transformer accepts.
pub open spec fn seg_well_formed(seg: V8Result) -> bool {
    &&& seg.indicators.quote@.len() == 1
    &&& seg.indicators.adjclose@.len() == 1
    &&& columns_aligned(seg)
    &&& valid_offset(seg.meta.gmtoffset as int)
    &&& forall|i: int|
        0 <= i < seg.timestamp@.len() ==> ts_renderable(#[trigger] seg.timestamp@[i] as int)
}

/// The record the transformer owes for sample `i` of a well-formed segment:
/// the epoch seconds of `timestamp[i]` displayed at the segment's signed UTC
/// offset (east positive, west negative, zero UTC), and the column values of
/// index `i`, moved over verbatim.
pub open spec fn spec_record(seg: V8Result, i: int) -> Record {
    let q = seg.indicators.quote@[0];
    let a = seg.indicators.adjclose@[0];
    Record {
        timestamp: FixedInstant {
            utc_seconds: seg.timestamp@[i],
            offset_seconds: seg.meta.gmtoffset,
        },
        volume: q.volume@[i],
        high: q.high@[i],
        low: q.low@[i],
        open: q.open@[i],
        close: q.close@[i],
        adjclose: a.adjclose@[i],
    }
}

/// The error a malformed segment reports: the first check that fails.
pub open spec fn seg_error(seg: V8Result) -> SegmentError {
    if seg.indicators.quote@.len() != 1 {
        SegmentError::QuoteGroups { count: seg.indicators.quote@.len() as usize }
    } else if seg.indicators.adjclose@.len() != 1 {
        SegmentError::AdjCloseGroups { count: seg.indicators.adjclose@.len() as usize }
    } else if !columns_aligned(seg) {
        SegmentError::ColumnLengths
    } else if !valid_offset(seg.meta.gmtoffset as int) {
        SegmentError::OffsetOutOfRange { gmtoffset: seg.meta.gmtoffset }
    } else {
        SegmentError::TimestampOutOfRange
    }
}

/// What `segment_to_dataset` promises about its result.
pub open spec fn transform_post(seg: V8Result, r: Result<DataSet, SegmentError>) -> bool {
    &&& r is Ok <==> seg_well_formed(seg)
    &&& (r matches Ok(ds) ==> {
        &&& ds.meta == seg.meta
        &&& ds.records@.len() == seg.timestamp@.len()
        &&& forall|i: int|
            0 <= i < ds.records@.len() ==> ds.records@[i] == spec_record(seg, i)
    })
    &&& (r matches Err(e) ==> e == seg_error(seg))
}

/// Transforms one segment into a dataset: one record per timestamp, in the
/// timestamps' order, columns paired positionally, metadata carried through.
/// Rejects a structurally inconsistent segment instead of truncating.
pub fn segment_to_dataset(seg: V8Result) -> (r: Result<DataSet, SegmentError>)
    ensures
        transform_post(seg, r),
{
    if seg.indicators.quote.len() != 1 {
        return Err(SegmentError::QuoteGroups { count: seg.indicators.quote.len() });
    }
    if seg.indicators.adjclose.len() != 1 {
        return Err(SegmentError::AdjCloseGroups { count: seg.indicators.adjclose.len() });
    }
    let n = seg.timestamp.len();
    {
        let q = &seg.indicators.quote[0];
        let a = &seg.indicators.adjclose[0];
        if q.volume.len() != n || q.open.len() != n || q.high.len() != n || q.low.len() != n
            || q.close.len() != n || a.adjclose.len() != n {
            return Err(SegmentError::ColumnLengths);
        }
    }
    let gmtoffset = seg.meta.gmtoffset;
    if !(-86400 < gmtoffset && gmtoffset < 86400) {
        return Err(SegmentError::OffsetOutOfRange { gmtoffset });
    }
    let mut i: usize = 0;
    while i < n
        invariant
            n == seg.timestamp@.len(),
            0 <= i <= n,
            seg.indicators.quote@.len() == 1,
            seg.indicators.adjclose@.len() == 1,
            columns_aligned(seg),
            valid_offset(seg.meta.gmtoffset as int),
            forall|k: int| 0 <= k < i ==> ts_renderable(#[trigger] seg.timestamp@[k] as int),
        decreases n - i,
    {
        let t = seg.timestamp[i];
        if !(-8000000000000 <= t && t <= 8000000000000) {
            assert(!ts_renderable(seg.timestamp@[i as int] as int));
            return Err(SegmentError::TimestampOutOfRange);
        }
        i = i + 1;
    }
    assert(seg_well_formed(seg));
    let mut records: Vec<Record> = Vec::new();
    let q = &seg.indicators.quote[0];
    let a = &seg.indicators.adjclose[0];
    let mut i: usize = 0;
    while i < n
        invariant
            seg_well_formed(seg),
            n == seg.timestamp@.len(),
            0 <= i <= n,
            q == seg.indicators.quote@[0],
            a == seg.indicators.adjclose@[0],
            gmtoffset == seg.meta.gmtoffset,
            records@.len() == i,
            forall|k: int| 0 <= k < i ==> records@[k] == spec_record(seg, k),
        decreases n - i,
    {
        let rec = Record {
            timestamp: FixedInstant { utc_seconds: seg.timestamp[i], offset_seconds: gmtoffset },
            volume: q.volume[i],
            high: q.high[i].clone(),
            low: q.low[i].clone(),
            open: q.open[i].clone(),
            close: q.close[i].clone(),
            adjclose: a.adjclose[i].clone(),
        };
        assert(rec == spec_record(seg, i as int));
        records.push(rec);
        i = i + 1;
    }
    let meta = seg.meta;
    Ok(DataSet { records, meta })
}

/// Transforms every segment of a payload independently: one result per
/// segment, in segment order; a rejected segment never affects another.
pub fn chart_to_datasets(chart: Chart) -> (r: Vec<Result<DataSet, SegmentError>>)
    ensures
        r@.len() == chart.result@.len(),
        forall|i: int|
            0 <= i < r@.len() ==> transform_post(chart.result@[i], #[trigger] r@[i]),
{
    let ghost orig = chart.result@;
    let mut segs = chart.result;
    let mut out: Vec<Result<DataSet, SegmentError>> = Vec::new();
    while segs.len() > 0
        invariant
            out@.len() + segs@.len() == orig.len(),
            segs@ =~= orig.subrange(out@.len() as int, orig.len() as int),
            forall|i: int|
                0 <= i < out@.len() ==> transform_post(orig[i], #[trigger] out@[i]),
        decreases segs@.len(),
    {
        let seg = segs.remove(0);
        assert(seg == orig[out@.len() as int]);
        let ds = segment_to_dataset(seg);
        out.push(ds);
        proof {
            assert(segs@ =~= orig.subrange(out@.len() as int, orig.len() as int));
        }
    }
    out
}

/// Two datasets with equal metadata and equal record sequences: the
/// transformer's output is a pure function of its input, so this is what
/// "identical output" means for it.
pub open spec fn same_dataset(a: DataSet, b: DataSet) -> bool {
    a.meta == b.meta && a.records@ == b.records@
}

pub open spec fn same_transform_result(
    a: Result<DataSet, SegmentError>,
    b: Result<DataSet, SegmentError>,
) -> bool {
    match (a, b) {
        (Ok(da), Ok(db)) => same_dataset(da, db),
        (Err(ea), Err(eb)) => ea == eb,
        _ => false,
    }
}

/// Transforming the same segment twice yields identical output: any two
/// results that meet the transformer's contract agree, success or error.
pub proof fn lemma_transform_deterministic(
    seg: V8Result,
    r1: Result<DataSet, SegmentError>,
    r2: Result<DataSet, SegmentError>,
)
    requires
        transform_post(seg, r1),
        transform_post(seg, r2),
    ensures
        same_transform_result(r1, r2),
{
    if seg_well_formed(seg) {
        let da = r1->Ok_0;
        let db = r2->Ok_0;
        assert forall|i: int| 0 <= i < da.records@.len() implies da.records@[i]
            == db.records@[i] by {
            assert(da.records@[i] == spec_record(seg, i));
            assert(db.records@[i] == spec_record(seg, i));
        }
        assert(da.records@ =~= db.records@);
    }
}

} // verus!
