//! Planning and classifying provider requests.
//!
//! For each requested symbol the planner builds the provider URL (epoch-second
//! period bounds, the sampling interval, the fixed dividend-and-split events
//! selector) and the output file name. The classifier turns each completed
//! attempt into exactly one outcome that carries its request's symbol, so a
//! batch yields one outcome per request and a failure on one symbol never
//! touches another. The network itself, the pacing sleep and the file writes
//! live outside this crate; they hand each response back as a `FetchEvent`.

use vstd::prelude::*;

use crate::date::{date_code, epoch_seconds, epoch_seconds_of, valid_date, yyyymmdd, Date};
use crate::num::{all_digits, dec_i64, i64_to_string, num_of_digits, parse_u64};
use crate::text::push_str;

verus! {

/// The sampling interval, the provider's fixed set.
#[derive(Clone, Copy, Debug, PartialEq, Eq, Structural)]
pub enum Interval {
    Minute1,
    Minute5,
    Day1,
    Day5,
    Week1,
    Month1,
    Month3,
}

pub open spec fn interval_code(iv: Interval) -> Seq<char> {
    match iv {
        Interval::Minute1 => "1m"@,
        Interval::Minute5 => "5m"@,
        Interval::Day1 => "1d"@,
        Interval::Day5 => "5d"@,
        Interval::Week1 => "1wk"@,
        Interval::Month1 => "1mo"@,
        Interval::Month3 => "3mo"@,
    }
}

impl Interval {
    /// The query-parameter text of this interval.
    pub fn code(&self) -> (r: &'static str)
        ensures
            r@ == interval_code(*self),
    {
        match self {
            Interval::Minute1 => "1m",
            Interval::Minute5 => "5m",
            Interval::Day1 => "1d",
            Interval::Day5 => "5d",
            Interval::Week1 => "1wk",
            Interval::Month1 => "1mo",
            Interval::Month3 => "3mo",
        }
    }
}

/// An inter-request delay in milliseconds.
#[derive(Clone, Copy, Debug, PartialEq, Eq, Structural)]
pub struct MyDuration {
    pub millis: u64,
}

/// The digit part of a millisecond count: one optional leading `+` is
/// skipped, as the standard unsigned-integer parser skips it.
pub open spec fn duration_digits(s: Seq<char>) -> Seq<char> {
    if s.len() > 0 && s[0] == '+' {
        s.drop_first()
    } else {
        s
    }
}

impl MyDuration {
    /// Parses a decimal millisecond count, as given on a command line:
    /// `Some` exactly for an optional `+` then one or more digits whose
    /// value fits.
    pub fn parse(s: &str) -> (r: Option<MyDuration>)
        ensures
            r is Some <==> duration_digits(s@).len() > 0 && all_digits(duration_digits(s@))
                && num_of_digits(duration_digits(s@)) <= u64::MAX,
            r matches Some(d) ==> d.millis == num_of_digits(duration_digits(s@)),
    {
        let n = s.unicode_len();
        let digits: &str = if n > 0 && s.get_char(0) == '+' {
            s.substring_char(1, n)
        } else {
            s
        };
        proof {
            if s@.len() > 0 && s@[0] == '+' {
                assert(s@.subrange(1, n as int) =~= s@.drop_first());
            }
            assert(digits@ =~= duration_digits(s@));
        }
        match parse_u64(digits) {
            Some(ms) => Some(MyDuration { millis: ms }),
            None => None,
        }
    }
}

/// The download request set, as validated by the command-line layer.
#[derive(Debug, Clone, PartialEq)]
pub struct DownloadOpts {
    pub symbols: Vec<String>,
    pub start: Option<Date>,
    pub end: Option<Date>,
    pub include_pre_post: bool,
    pub output_dir: String,
    pub interval: Interval,
    pub rate: MyDuration,
    pub convert: bool,
}

/// The batch-conversion request.
#[derive(Debug, Clone, PartialEq)]
pub struct ConvertOpts {
    pub input_dir: String,
    pub recursive: bool,
}

#[derive(Debug, Clone, PartialEq)]
pub enum SubCommand {
    Download(DownloadOpts),
    Convert(ConvertOpts),
}

#[derive(Debug, Clone, PartialEq)]
pub struct Opts {
    pub subcmd: SubCommand,
}

// ---------------------------------------------------------------------------
// The provider URL
// ---------------------------------------------------------------------------
/// The serialized URL that parsing `base` and appending the query `pairs`
/// yields. Its exact text (percent-encoding included) is owned by the `url`
/// crate; it is a function of the base and the pairs alone.
pub uninterp spec fn url_with_params(base: Seq<char>, pairs: Seq<(Seq<char>, Seq<char>)>) -> Seq<
    char,
>;

/// Whether `url::Url::parse` accepts `base` as an absolute URL: a function
/// of the text alone, owned by the `url` crate's parser.
pub uninterp spec fn url_base_parses(base: Seq<char>) -> bool;

/// The characters the query pairs hand the `url` crate, from index `k` on.
pub open spec fn pairs_char_len_from(pairs: Seq<(Seq<char>, Seq<char>)>, k: int) -> int
    decreases pairs.len() - k,
{
    if k < 0 || k >= pairs.len() {
        0
    } else {
        pairs[k].0.len() + pairs[k].1.len() + pairs_char_len_from(pairs, k + 1)
    }
}

pub open spec fn pairs_char_len(pairs: Seq<(Seq<char>, Seq<char>)>) -> int {
    pairs_char_len_from(pairs, 0)
}

/// Inputs that stay far below the `url` crate's 4 GiB serialization limit:
/// one character becomes at most a dozen bytes under percent-encoding or
/// punycode and each pair adds two separator bytes, so these inputs
/// serialize to well under `u32::MAX` bytes on every path.
pub open spec fn url_input_small(base: Seq<char>, pairs: Seq<(Seq<char>, Seq<char>)>) -> bool {
    base.len() + pairs_char_len(pairs) + pairs.len() < 0x10000000
}

/// Relies on `url::Url::parse_with_params`: it parses the base URL with
/// `Url::parse` and then appends each pair to the query form-urlencoded;
/// appending never fails, so the call returns `Ok` exactly when the base
/// parses. And on `String::from(Url)`, the serialized text. The crate
/// refuses URLs of 4 GiB and more, normally as a parse error, but one path
/// (restoring a fragment after the pairs are appended) asserts the limit
/// instead; `url_input_small` keeps every admitted input far below it.
#[verifier::external_body]
fn url_with_query(base: &str, pairs: &Vec<(String, String)>) -> (r: Option<String>)
    requires
        url_input_small(base@, pairs.deep_view()),
    ensures
        r is Some <==> url_base_parses(base@),
        r matches Some(s) ==> s@ == url_with_params(base@, pairs.deep_view()),
{
    match url::Url::parse_with_params(base, pairs.iter().map(|p| (p.0.as_str(), p.1.as_str()))) {
        Ok(u) => Some(String::from(u)),
        Err(_) => None,
    }
}

pub open spec fn chart_base(symbol: Seq<char>) -> Seq<char> {
    "https://query1.finance.yahoo.com/v8/finance/chart/"@ + symbol
}

/// The most characters a request symbol may hold: ample for any instrument
/// identifier, and it keeps every planned URL far below the `url` crate's
/// serialization limit.
pub const MAX_SYMBOL_LEN: usize = 1048576;

proof fn lemma_interval_code_len(iv: Interval)
    ensures
        1 <= interval_code(iv).len() <= 3,
{
    reveal_strlit("1m");
    reveal_strlit("5m");
    reveal_strlit("1d");
    reveal_strlit("5d");
    reveal_strlit("1wk");
    reveal_strlit("1mo");
    reveal_strlit("3mo");
}

/// `period1`: the start instant as epoch seconds, or `0` when open.
pub open spec fn period1_text(start: Option<Date>) -> Seq<char> {
    match start {
        Some(d) => dec_i64(epoch_seconds_of(d)),
        None => "0"@,
    }
}

/// `period2`: the end instant as epoch seconds, or a far-future sentinel.
pub open spec fn period2_text(end: Option<Date>) -> Seq<char> {
    match end {
        Some(d) => dec_i64(epoch_seconds_of(d)),
        None => "99999999999"@,
    }
}

pub open spec fn chart_query_pairs(start: Option<Date>, end: Option<Date>, iv: Interval) -> Seq<
    (Seq<char>, Seq<char>),
> {
    seq![
        ("period1"@, period1_text(start)),
        ("period2"@, period2_text(end)),
        ("interval"@, interval_code(iv)),
        ("events"@, "div,split"@),
    ]
}

/// The provider URL owed for one symbol and range.
pub open spec fn chart_uri(
    symbol: Seq<char>,
    start: Option<Date>,
    end: Option<Date>,
    iv: Interval,
) -> Seq<char> {
    url_with_params(chart_base(symbol), chart_query_pairs(start, end, iv))
}

/// Builds the provider request URL for one symbol: the chart endpoint for
/// the symbol, with `period1`/`period2` from the dates (epoch seconds at
/// midnight UTC; `0` and a far-future sentinel when open), the interval, and
/// the fixed dividend-and-split events selector. A URL is produced exactly
/// when the `url` crate's parser accepts the base for this symbol.
pub fn make_uri(symbol: &str, start: Option<Date>, end: Option<Date>, interval: Interval) -> (r:
    Option<String>)
    requires
        symbol@.len() <= MAX_SYMBOL_LEN as int,
        start matches Some(d) ==> valid_date(d),
        end matches Some(d) ==> valid_date(d),
    ensures
        r is Some <==> url_base_parses(chart_base(symbol@)),
        r matches Some(s) ==> s@ == chart_uri(symbol@, start, end, interval),
{
    let mut base = String::new();
    push_str(&mut base, "https://query1.finance.yahoo.com/v8/finance/chart/");
    push_str(&mut base, symbol);
    assert(base@ =~= chart_base(symbol@));
    let p1 = match start {
        Some(d) => i64_to_string(epoch_seconds(d)),
        None => "0".to_owned(),
    };
    let p2 = match end {
        Some(d) => i64_to_string(epoch_seconds(d)),
        None => "99999999999".to_owned(),
    };
    let mut pairs: Vec<(String, String)> = Vec::new();
    pairs.push(("period1".to_owned(), p1));
    pairs.push(("period2".to_owned(), p2));
    pairs.push(("interval".to_owned(), interval.code().to_owned()));
    pairs.push(("events".to_owned(), "div,split".to_owned()));
    proof {
        assert(pairs.deep_view() =~= chart_query_pairs(start, end, interval));
        reveal_strlit("https://query1.finance.yahoo.com/v8/finance/chart/");
        reveal_strlit("period1");
        reveal_strlit("period2");
        reveal_strlit("interval");
        reveal_strlit("events");
        reveal_strlit("div,split");
        reveal_strlit("0");
        reveal_strlit("99999999999");
        reveal_with_fuel(crate::num::pow10, 13);
        assert(crate::num::pow10(12) == 1000000000000);
        lemma_interval_code_len(interval);
        match start {
            Some(d) => {
                crate::date::lemma_epoch_seconds_bounds(d);
                crate::num::lemma_dec_i64_len(epoch_seconds_of(d), 12);
            },
            None => {},
        }
        match end {
            Some(d) => {
                crate::date::lemma_epoch_seconds_bounds(d);
                crate::num::lemma_dec_i64_len(epoch_seconds_of(d), 12);
            },
            None => {},
        }
        assert(period1_text(start).len() <= 13);
        assert(period2_text(end).len() <= 13);
        let ghost ps = pairs.deep_view();
        assert(pairs_char_len(ps) == ps[0].0.len() + ps[0].1.len() + ps[1].0.len() + ps[1].1.len()
            + ps[2].0.len() + ps[2].1.len() + ps[3].0.len() + ps[3].1.len()) by {
            reveal_with_fuel(pairs_char_len_from, 6);
        }
        assert(url_input_small(base@, pairs.deep_view()));
    }
    url_with_query(base.as_str(), &pairs)
}

// ---------------------------------------------------------------------------
// Output file names
// ---------------------------------------------------------------------------
/// The start marker in a file name: the date code, or `init` when open.
pub open spec fn start_code(start: Option<Date>) -> Seq<char> {
    match start {
        Some(d) => yyyymmdd(d),
        None => "init"@,
    }
}

/// `SYMBOL_START_END.json`, the dates as `YYYYMMDD`.
pub open spec fn download_filename(symbol: Seq<char>, start: Option<Date>, end: Date) -> Seq<
    char,
> {
    symbol + "_"@ + start_code(start) + "_"@ + yyyymmdd(end) + ".json"@
}

/// The output file name for one symbol; an open end defaults to today.
pub fn output_filename(symbol: &str, start: Option<Date>, end: Option<Date>, today: Date) -> (r:
    String)
    requires
        start matches Some(d) ==> valid_date(d),
        end matches Some(d) ==> valid_date(d),
        valid_date(today),
    ensures
        r@ == download_filename(
            symbol@,
            start,
            match end {
                Some(d) => d,
                None => today,
            },
        ),
{
    let mut s = String::new();
    push_str(&mut s, symbol);
    push_str(&mut s, "_");
    match start {
        Some(d) => date_code(&mut s, d),
        None => push_str(&mut s, "init"),
    }
    push_str(&mut s, "_");
    let e = match end {
        Some(d) => d,
        None => today,
    };
    date_code(&mut s, e);
    push_str(&mut s, ".json");
    assert(s@ =~= download_filename(
        symbol@,
        start,
        match end {
            Some(d) => d,
            None => today,
        },
    ));
    s
}

// ---------------------------------------------------------------------------
// Planning a batch
// ---------------------------------------------------------------------------
/// One planned request: the symbol, its provider URL, its output file name.
#[derive(Debug, Clone, PartialEq)]
pub struct DownloadPlan {
    pub symbol: String,
    pub uri: String,
    pub filename: String,
}

pub open spec fn plan_post(opts: DownloadOpts, today: Date, i: int, p: DownloadPlan) -> bool {
    &&& p.symbol@ == opts.symbols@[i]@
    &&& p.uri@ == chart_uri(opts.symbols@[i]@, opts.start, opts.end, opts.interval)
    &&& p.filename@ == download_filename(
        opts.symbols@[i]@,
        opts.start,
        match opts.end {
            Some(d) => d,
            None => today,
        },
    )
}

/// Plans the whole batch: one request per symbol, in the symbols' order.
/// A plan is produced whenever every symbol's base URL parses; `None` only
/// when the `url` crate's parser refuses one of them.
pub fn plan_downloads(opts: &DownloadOpts, today: Date) -> (r: Option<Vec<DownloadPlan>>)
    requires
        forall|i: int|
            0 <= i < opts.symbols@.len() ==> (#[trigger] opts.symbols@[i])@.len()
                <= MAX_SYMBOL_LEN as int,
        opts.start matches Some(d) ==> valid_date(d),
        opts.end matches Some(d) ==> valid_date(d),
        valid_date(today),
    ensures
        r matches Some(plans) ==> {
            &&& plans@.len() == opts.symbols@.len()
            &&& forall|i: int|
                0 <= i < plans@.len() ==> plan_post(*opts, today, i, #[trigger] plans@[i])
        },
        (forall|i: int|
            0 <= i < opts.symbols@.len() ==> #[trigger] url_base_parses(
                chart_base(opts.symbols@[i]@),
            )) ==> r is Some,
        r is None ==> exists|i: int|
            0 <= i < opts.symbols@.len() && !#[trigger] url_base_parses(
                chart_base(opts.symbols@[i]@),
            ),
{
    let n = opts.symbols.len();
    let mut plans: Vec<DownloadPlan> = Vec::new();
    let mut i: usize = 0;
    while i < n
        invariant
            0 <= i <= n,
            n == opts.symbols@.len(),
            forall|k: int|
                0 <= k < n ==> (#[trigger] opts.symbols@[k])@.len() <= MAX_SYMBOL_LEN as int,
            opts.start matches Some(d) ==> valid_date(d),
            opts.end matches Some(d) ==> valid_date(d),
            valid_date(today),
            plans@.len() == i,
            forall|k: int| 0 <= k < i ==> plan_post(*opts, today, k, #[trigger] plans@[k]),
        decreases n - i,
    {
        let symbol = &opts.symbols[i];
        let uri = match make_uri(symbol.as_str(), opts.start, opts.end, opts.interval) {
            Some(u) => u,
            None => {
                assert(!url_base_parses(chart_base(opts.symbols@[i as int]@)));
                return None;
            },
        };
        let filename = output_filename(symbol.as_str(), opts.start, opts.end, today);
        plans.push(DownloadPlan { symbol: symbol.clone(), uri, filename });
        i = i + 1;
    }
    Some(plans)
}

// ---------------------------------------------------------------------------
// Classifying outcomes
// ---------------------------------------------------------------------------
/// What one request's network attempt produced, as the I/O layer hands it
/// back: a complete response, or a transport-level error.
#[derive(Debug, Clone, PartialEq)]
pub enum FetchEvent {
    Response { status: u16, body: Vec<u8> },
    Transport { message: String },
}

/// The classified outcome of one request; every variant carries the
/// request's symbol, so callers correlate by symbol, never by position.
#[derive(Debug, Clone, PartialEq)]
pub enum FetchOutcome {
    /// HTTP 200: the payload bytes.
    Success { symbol: String, body: Vec<u8> },
    /// A remote rejection: status, symbol, and diagnostic body.
    Failure { status: u16, symbol: String, body: Vec<u8> },
    /// A transport-level fault; no response was classified.
    Fault { symbol: String, message: String },
}

pub open spec fn outcome_symbol(o: FetchOutcome) -> Seq<char> {
    match o {
        FetchOutcome::Success { symbol, .. } => symbol@,
        FetchOutcome::Failure { symbol, .. } => symbol@,
        FetchOutcome::Fault { symbol, .. } => symbol@,
    }
}

/// The outcome owed for one request: a 200 response is a success carrying
/// the payload, any other status a failure carrying status, symbol and body,
/// a transport error a fault; the outcome embeds the request's symbol.
pub open spec fn classify_post(symbol: Seq<char>, ev: FetchEvent, o: FetchOutcome) -> bool {
    match ev {
        FetchEvent::Response { status, body } => {
            if status == 200 {
                o matches FetchOutcome::Success { symbol: s2, body: b2 } && s2@ == symbol && b2@
                    == body@
            } else {
                o matches FetchOutcome::Failure { status: st2, symbol: s2, body: b2 } && st2
                    == status && s2@ == symbol && b2@ == body@
            }
        },
        FetchEvent::Transport { message } => o matches FetchOutcome::Fault {
            symbol: s2,
            message: m2,
        } && s2@ == symbol && m2@ == message@,
    }
}

/// Classifies one completed attempt.
pub fn classify_response(symbol: String, event: FetchEvent) -> (o: FetchOutcome)
    ensures
        classify_post(symbol@, event, o),
        outcome_symbol(o) == symbol@,
{
    match event {
        FetchEvent::Response { status, body } => {
            if status == 200 {
                FetchOutcome::Success { symbol, body }
            } else {
                FetchOutcome::Failure { status, symbol, body }
            }
        },
        FetchEvent::Transport { message } => FetchOutcome::Fault { symbol, message },
    }
}

/// Classifies a whole batch: exactly one outcome per request, in request
/// order, and outcome `i` is determined by event `i` alone, so one symbol's
/// rejection never prevents or corrupts another's result.
pub fn pair_outcomes(symbols: &Vec<String>, events: Vec<FetchEvent>) -> (r: Vec<FetchOutcome>)
    requires
        symbols@.len() == events@.len(),
    ensures
        r@.len() == symbols@.len(),
        forall|i: int|
            0 <= i < r@.len() ==> classify_post(symbols@[i]@, events@[i], #[trigger] r@[i]),
{
    let ghost orig = events@;
    let mut evs = events;
    let mut out: Vec<FetchOutcome> = Vec::new();
    while evs.len() > 0
        invariant
            out@.len() + evs@.len() == orig.len(),
            orig.len() == symbols@.len(),
            evs@ =~= orig.subrange(out@.len() as int, orig.len() as int),
            forall|i: int|
                0 <= i < out@.len() ==> classify_post(symbols@[i]@, orig[i], #[trigger] out@[i]),
        decreases evs@.len(),
    {
        let i = out.len();
        let ev = evs.remove(0);
        assert(ev == orig[i as int]);
        let o = classify_response(symbols[i].clone(), ev);
        out.push(o);
        proof {
            assert(evs@ =~= orig.subrange(out@.len() as int, orig.len() as int));
        }
    }
    out
}

/// In a batch of pairwise distinct symbols, each outcome's embedded symbol
/// identifies exactly one request: outcome `i` carries symbol `i` and no
/// other request's symbol, a bijection between outcomes and requests.
pub proof fn lemma_outcome_symbol_bijection(
    symbols: Seq<Seq<char>>,
    events: Seq<FetchEvent>,
    outcomes: Seq<FetchOutcome>,
)
    requires
        symbols.len() == events.len(),
        outcomes.len() == symbols.len(),
        forall|i: int|
            0 <= i < outcomes.len() ==> classify_post(symbols[i], events[i], #[trigger] outcomes[i]),
        forall|i: int, j: int| 0 <= i < j < symbols.len() ==> symbols[i] != symbols[j],
    ensures
        forall|i: int|
            0 <= i < outcomes.len() ==> outcome_symbol(#[trigger] outcomes[i]) == symbols[i],
        forall|i: int, j: int|
            0 <= i < outcomes.len() && 0 <= j < symbols.len() && outcome_symbol(outcomes[i])
                == symbols[j] ==> i == j,
{
    assert forall|i: int| 0 <= i < outcomes.len() implies outcome_symbol(#[trigger] outcomes[i])
        == symbols[i] by {
        assert(classify_post(symbols[i], events[i], outcomes[i]));
        match events[i] {
            FetchEvent::Response { status, body } => {},
            FetchEvent::Transport { message } => {},
        }
    }
}

/// How many outcomes of a batch are successes.
pub open spec fn count_successes(s: Seq<FetchOutcome>) -> nat
    decreases s.len(),
{
    if s.len() == 0 {
        0
    } else {
        count_successes(s.drop_last()) + (if s.last() is Success {
            1nat
        } else {
            0nat
        })
    }
}

/// The batch summary reported for observability: successes and total.
pub fn summarize(outcomes: &Vec<FetchOutcome>) -> (r: (usize, usize))
    ensures
        r.1 == outcomes@.len(),
        r.0 == count_successes(outcomes@),
{
    let n = outcomes.len();
    let mut count: usize = 0;
    let mut i: usize = 0;
    while i < n
        invariant
            0 <= i <= n,
            n == outcomes@.len(),
            count <= i,
            count == count_successes(outcomes@.subrange(0, i as int)),
        decreases n - i,
    {
        let is_succ = match &outcomes[i] {
            FetchOutcome::Success { .. } => true,
            _ => false,
        };
        proof {
            assert(outcomes@.subrange(0, i + 1).drop_last() =~= outcomes@.subrange(0, i as int));
            assert(outcomes@.subrange(0, i + 1).last() == outcomes@[i as int]);
        }
        if is_succ {
            count = count + 1;
        }
        i = i + 1;
    }
    assert(outcomes@.subrange(0, n as int) =~= outcomes@);
    (count, n)
}

} // verus!
