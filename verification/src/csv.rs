//! Delimited tabular text: rendering, parsing, and the round trip.
//!
//! The encoder renders rows of fields with minimal quoting: a field holding a
//! comma, quote or line break is wrapped in double quotes with inner quotes
//! doubled, any other field is copied verbatim, fields are joined with commas
//! and every row ends with a line feed. The parser reads the unquoted form
//! back (it splits on commas and line feeds and does not interpret quotes,
//! which the texts this crate renders never need). `lemma_csv_round_trip`
//! proves that parsing a rendered table of plain fields reproduces it
//! exactly.
//!
//! `convert_to_csv` joins the two halves: it transforms every segment of a
//! payload and renders each resulting dataset, one CSV text per segment.

use vstd::prelude::*;

use crate::chart::{
    seg_error, seg_well_formed, spec_record, segment_to_dataset, ChartWrapper, DataSet, Record,
    SegmentError,
};
use crate::num::{dec_u64, u64_to_string};
use crate::text::{is_tab_special, plain_text, push_char, push_str};
use crate::time::{format_timestamp, instant_renderable, rfc3339_of};

verus! {

// ---------------------------------------------------------------------------
// Encoding
// ---------------------------------------------------------------------------
/// A field with inner double quotes doubled.
pub open spec fn esc_quotes(f: Seq<char>) -> Seq<char>
    decreases f.len(),
{
    if f.len() == 0 {
        Seq::empty()
    } else {
        esc_quotes(f.drop_last()) + (if f.last() == '"' {
            seq!['"', '"']
        } else {
            seq![f.last()]
        })
    }
}

/// A rendered field: verbatim when plain, else quoted with quotes doubled.
pub open spec fn enc_field(f: Seq<char>) -> Seq<char> {
    if plain_text(f) {
        f
    } else {
        seq!['"'] + esc_quotes(f) + seq!['"']
    }
}

/// The fields of one row from index `k` on, joined with commas.
pub open spec fn enc_row_from(fs: Seq<Seq<char>>, k: int) -> Seq<char>
    decreases fs.len() - k,
{
    if k < 0 || k >= fs.len() {
        Seq::empty()
    } else if k == fs.len() - 1 {
        enc_field(fs[k])
    } else {
        enc_field(fs[k]) + seq![','] + enc_row_from(fs, k + 1)
    }
}

pub open spec fn enc_row(fs: Seq<Seq<char>>) -> Seq<char> {
    enc_row_from(fs, 0)
}

/// The rows from index `k` on, each row followed by a line feed.
pub open spec fn enc_table_from(rows: Seq<Seq<Seq<char>>>, k: int) -> Seq<char>
    decreases rows.len() - k,
{
    if k < 0 || k >= rows.len() {
        Seq::empty()
    } else {
        enc_row(rows[k]) + seq!['\n'] + enc_table_from(rows, k + 1)
    }
}

pub open spec fn enc_table(rows: Seq<Seq<Seq<char>>>) -> Seq<char> {
    enc_table_from(rows, 0)
}

fn char_is_special(c: char) -> (b: bool)
    ensures
        b == is_tab_special(c),
{
    c == ',' || c == '"' || c == '\n' || c == '\r'
}

fn field_is_plain(f: &str) -> (b: bool)
    ensures
        b == plain_text(f@),
{
    let n = f.unicode_len();
    let mut i: usize = 0;
    while i < n
        invariant
            0 <= i <= n,
            n == f@.len(),
            forall|k: int| 0 <= k < i ==> !is_tab_special(#[trigger] f@[k]),
        decreases n - i,
    {
        if char_is_special(f.get_char(i)) {
            return false;
        }
        i = i + 1;
    }
    true
}

fn push_enc_field(out: &mut String, f: &str)
    ensures
        final(out)@ == old(out)@ + enc_field(f@),
{
    if field_is_plain(f) {
        push_str(out, f);
        return;
    }
    let n = f.unicode_len();
    push_char(out, '"');
    let mut i: usize = 0;
    while i < n
        invariant
            0 <= i <= n,
            n == f@.len(),
            !plain_text(f@),
            out@ == old(out)@ + seq!['"'] + esc_quotes(f@.subrange(0, i as int)),
        decreases n - i,
    {
        let c = f.get_char(i);
        if c == '"' {
            push_char(out, '"');
            push_char(out, '"');
        } else {
            push_char(out, c);
        }
        proof {
            assert(f@.subrange(0, i + 1).drop_last() =~= f@.subrange(0, i as int));
            assert(f@.subrange(0, i + 1).last() == f@[i as int]);
            assert(out@ =~= old(out)@ + seq!['"'] + esc_quotes(f@.subrange(0, i + 1)));
        }
        i = i + 1;
    }
    push_char(out, '"');
    proof {
        assert(f@.subrange(0, n as int) =~= f@);
        assert(out@ =~= old(out)@ + enc_field(f@));
    }
}

fn push_enc_row(out: &mut String, fields: &Vec<String>, k: usize)
    requires
        k <= fields@.len(),
    ensures
        final(out)@ == old(out)@ + enc_row_from(fields.deep_view(), k as int),
    decreases fields@.len() - k,
{
    if k == fields.len() {
        assert(out@ =~= old(out)@ + enc_row_from(fields.deep_view(), k as int));
        return;
    }
    push_enc_field(out, fields[k].as_str());
    assert(fields.deep_view()[k as int] == fields@[k as int]@);
    if k + 1 < fields.len() {
        push_char(out, ',');
        push_enc_row(out, fields, k + 1);
    }
    assert(out@ =~= old(out)@ + enc_row_from(fields.deep_view(), k as int));
}

fn push_enc_table(out: &mut String, rows: &Vec<Vec<String>>, k: usize)
    requires
        k <= rows@.len(),
    ensures
        final(out)@ == old(out)@ + enc_table_from(rows.deep_view(), k as int),
    decreases rows@.len() - k,
{
    if k == rows.len() {
        assert(out@ =~= old(out)@ + enc_table_from(rows.deep_view(), k as int));
        return;
    }
    push_enc_row(out, &rows[k], 0);
    assert(rows.deep_view()[k as int] =~= rows@[k as int].deep_view());
    push_char(out, '\n');
    push_enc_table(out, rows, k + 1);
    assert(out@ =~= old(out)@ + enc_table_from(rows.deep_view(), k as int));
}

/// Renders rows of fields as delimited tabular text.
pub fn render_csv(rows: &Vec<Vec<String>>) -> (s: String)
    ensures
        s@ == enc_table(rows.deep_view()),
{
    let mut out = String::new();
    push_enc_table(&mut out, rows, 0);
    assert(out@ =~= enc_table(rows.deep_view()));
    out
}

// ---------------------------------------------------------------------------
// Parsing
// ---------------------------------------------------------------------------
/// The parsing state machine: one character at a time, accumulating the
/// current field, the current row, and the finished rows. A text whose final
/// row is unterminated does not parse. Quotes are not interpreted.
pub open spec fn parse_rec(
    s: Seq<char>,
    i: int,
    cur: Seq<char>,
    row: Seq<Seq<char>>,
    rows: Seq<Seq<Seq<char>>>,
) -> Option<Seq<Seq<Seq<char>>>>
    decreases s.len() - i,
{
    if i < 0 || i >= s.len() {
        if row.len() == 0 && cur.len() == 0 {
            Some(rows)
        } else {
            None
        }
    } else if s[i] == '\n' {
        parse_rec(s, i + 1, Seq::empty(), Seq::empty(), rows.push(row.push(cur)))
    } else if s[i] == ',' {
        parse_rec(s, i + 1, Seq::empty(), row.push(cur), rows)
    } else {
        parse_rec(s, i + 1, cur.push(s[i]), row, rows)
    }
}

/// The rows denoted by a tabular text, if every row is terminated.
pub open spec fn parse_table(s: Seq<char>) -> Option<Seq<Seq<Seq<char>>>> {
    parse_rec(s, 0, Seq::empty(), Seq::empty(), Seq::empty())
}

fn parse_step(
    s: &str,
    n: usize,
    i: usize,
    cur: String,
    row: Vec<String>,
    rows: Vec<Vec<String>>,
) -> (r: Option<Vec<Vec<String>>>)
    requires
        n == s@.len(),
        i <= n,
    ensures
        (match r {
            Some(t) => parse_rec(s@, i as int, cur@, row.deep_view(), rows.deep_view()) == Some(
                t.deep_view(),
            ),
            None => parse_rec(s@, i as int, cur@, row.deep_view(), rows.deep_view()) is None,
        }),
    decreases n - i,
{
    if i == n {
        if row.len() == 0 && cur.unicode_len() == 0 {
            return Some(rows);
        } else {
            return None;
        }
    }
    let c = s.get_char(i);
    if c == '\n' {
        let ghost cur0 = cur@;
        let ghost row0 = row.deep_view();
        let ghost rows0 = rows.deep_view();
        let mut row2 = row;
        row2.push(cur);
        proof {
            assert(row2.deep_view() =~= row0.push(cur0));
        }
        let ghost row2v = row2.deep_view();
        let mut rows2 = rows;
        rows2.push(row2);
        proof {
            assert(rows2.deep_view() =~= rows0.push(row2v));
            assert(rows2.deep_view() =~= rows0.push(row0.push(cur0)));
        }
        let empty_row: Vec<String> = Vec::new();
        proof {
            assert(empty_row.deep_view() =~= Seq::<Seq<char>>::empty());
        }
        parse_step(s, n, i + 1, String::new(), empty_row, rows2)
    } else if c == ',' {
        let ghost cur0 = cur@;
        let ghost row0 = row.deep_view();
        let mut row2 = row;
        row2.push(cur);
        proof {
            assert(row2.deep_view() =~= row0.push(cur0));
        }
        parse_step(s, n, i + 1, String::new(), row2, rows)
    } else {
        let mut cur2 = cur;
        push_char(&mut cur2, c);
        parse_step(s, n, i + 1, cur2, row, rows)
    }
}

/// Parses delimited tabular text back into rows of fields, exactly
/// `parse_table` of the text.
pub fn parse_csv(s: &str) -> (r: Option<Vec<Vec<String>>>)
    ensures
        (match r {
            Some(t) => parse_table(s@) == Some(t.deep_view()),
            None => parse_table(s@) is None,
        }),
{
    let n = s.unicode_len();
    let cur = String::new();
    let row: Vec<String> = Vec::new();
    let rows: Vec<Vec<String>> = Vec::new();
    proof {
        assert(row.deep_view() =~= Seq::<Seq<char>>::empty());
        assert(rows.deep_view() =~= Seq::<Seq<Seq<char>>>::empty());
    }
    parse_step(s, n, 0, cur, row, rows)
}

// ---------------------------------------------------------------------------
// The round trip
// ---------------------------------------------------------------------------
proof fn lemma_parse_plain_chunk(
    s: Seq<char>,
    i: int,
    f: Seq<char>,
    cur: Seq<char>,
    row: Seq<Seq<char>>,
    rows: Seq<Seq<Seq<char>>>,
)
    requires
        0 <= i,
        i + f.len() <= s.len(),
        plain_text(f),
        s.subrange(i, i + f.len()) == f,
    ensures
        parse_rec(s, i, cur, row, rows) == parse_rec(s, i + f.len(), cur + f, row, rows),
    decreases f.len(),
{
    if f.len() == 0 {
        assert(cur + f =~= cur);
    } else {
        let c = f[0];
        assert(s.subrange(i, i + f.len())[0] == s[i]);
        assert(c == s[i]);
        assert(!is_tab_special(f[0]));
        let f2 = f.drop_first();
        assert forall|j: int| 0 <= j < f2.len() implies !is_tab_special(#[trigger] f2[j]) by {
            assert(f2[j] == f[j + 1]);
        }
        assert(s.subrange(i + 1, i + f.len()) =~= f2) by {
            assert forall|m: int| 0 <= m < f.len() - 1 implies s.subrange(i + 1, i + f.len())[m]
                == f2[m] by {
                assert(s.subrange(i, i + f.len())[m + 1] == s[i + m + 1]);
            }
        }
        lemma_parse_plain_chunk(s, i + 1, f2, cur.push(c), row, rows);
        assert(cur.push(c) + f2 =~= cur + f);
        assert(parse_rec(s, i, cur, row, rows) == parse_rec(s, i + 1, cur.push(c), row, rows));
    }
}

proof fn lemma_parse_enc_row(
    s: Seq<char>,
    i: int,
    fs: Seq<Seq<char>>,
    k: int,
    row: Seq<Seq<char>>,
    rows: Seq<Seq<Seq<char>>>,
)
    requires
        0 <= k < fs.len(),
        forall|j: int| k <= j < fs.len() ==> plain_text(#[trigger] fs[j]),
        0 <= i,
        i + enc_row_from(fs, k).len() + 1 <= s.len(),
        s.subrange(i, i + enc_row_from(fs, k).len() + 1) == enc_row_from(fs, k) + seq!['\n'],
    ensures
        parse_rec(s, i, Seq::empty(), row, rows) == parse_rec(
            s,
            i + enc_row_from(fs, k).len() + 1,
            Seq::empty(),
            Seq::empty(),
            rows.push(row + fs.skip(k)),
        ),
    decreases fs.len() - k,
{
    let f = fs[k];
    assert(plain_text(f));
    assert(enc_field(f) == f);
    let whole = enc_row_from(fs, k) + seq!['\n'];
    let ln = enc_row_from(fs, k).len() as int;
    if k == fs.len() - 1 {
        assert(enc_row_from(fs, k) == f);
        assert(s.subrange(i, i + f.len()) =~= f) by {
            assert forall|m: int| 0 <= m < f.len() implies s.subrange(i, i + f.len())[m]
                == f[m] by {
                assert(s.subrange(i, i + ln + 1)[m] == s[i + m]);
                assert(whole[m] == f[m]);
            }
        }
        lemma_parse_plain_chunk(s, i, f, Seq::empty(), row, rows);
        assert(Seq::empty() + f =~= f);
        assert(s[i + f.len()] == '\n') by {
            assert(s.subrange(i, i + ln + 1)[ln] == s[i + ln]);
            assert(whole[ln] == '\n');
        }
        assert(parse_rec(s, i + f.len(), f, row, rows) == parse_rec(
            s,
            i + f.len() + 1,
            Seq::empty(),
            Seq::empty(),
            rows.push(row.push(f)),
        ));
        assert(fs.skip(k) =~= seq![f]);
        assert(row.push(f) =~= row + fs.skip(k));
        assert(rows.push(row.push(f)) == rows.push(row + fs.skip(k)));
    } else {
        let tail = enc_row_from(fs, k + 1);
        assert(enc_row_from(fs, k) == f + seq![','] + tail);
        assert(s.subrange(i, i + f.len()) =~= f) by {
            assert forall|m: int| 0 <= m < f.len() implies s.subrange(i, i + f.len())[m]
                == f[m] by {
                assert(s.subrange(i, i + ln + 1)[m] == s[i + m]);
                assert(whole[m] == f[m]);
            }
        }
        lemma_parse_plain_chunk(s, i, f, Seq::empty(), row, rows);
        assert(Seq::empty() + f =~= f);
        assert(s[i + f.len()] == ',') by {
            assert(s.subrange(i, i + ln + 1)[f.len() as int] == s[i + f.len()]);
            assert(whole[f.len() as int] == ',');
        }
        assert(parse_rec(s, i + f.len(), f, row, rows) == parse_rec(
            s,
            i + f.len() + 1,
            Seq::empty(),
            row.push(f),
            rows,
        ));
        let i2 = i + f.len() + 1;
        assert(s.subrange(i2, i2 + tail.len() + 1) =~= tail + seq!['\n']) by {
            assert forall|m: int| 0 <= m < tail.len() + 1 implies s.subrange(
                i2,
                i2 + tail.len() + 1,
            )[m] == (tail + seq!['\n'])[m] by {
                assert(s.subrange(i, i + ln + 1)[f.len() + 1 + m] == s[i + f.len() + 1 + m]);
                assert(whole[f.len() + 1 + m] == (tail + seq!['\n'])[m]);
            }
        }
        lemma_parse_enc_row(s, i2, fs, k + 1, row.push(f), rows);
        assert(row.push(f) + fs.skip(k + 1) =~= row + fs.skip(k)) by {
            assert(fs.skip(k) =~= seq![f] + fs.skip(k + 1));
        }
        assert(rows.push(row.push(f) + fs.skip(k + 1)) == rows.push(row + fs.skip(k)));
    }
}

proof fn lemma_parse_enc_table(
    s: Seq<char>,
    i: int,
    all: Seq<Seq<Seq<char>>>,
    k: int,
    acc: Seq<Seq<Seq<char>>>,
)
    requires
        0 <= k <= all.len(),
        forall|a: int| 0 <= a < all.len() ==> #[trigger] all[a].len() >= 1,
        forall|a: int, b: int|
            0 <= a < all.len() && 0 <= b < all[a].len() ==> plain_text(#[trigger] all[a][b]),
        0 <= i <= s.len(),
        s.subrange(i, s.len() as int) == enc_table_from(all, k),
    ensures
        parse_rec(s, i, Seq::empty(), Seq::empty(), acc) == Some(acc + all.skip(k)),
    decreases all.len() - k,
{
    if k == all.len() {
        assert(enc_table_from(all, k).len() == 0);
        assert(i == s.len());
        assert(acc + all.skip(k) =~= acc);
    } else {
        let fs = all[k];
        let rowtext = enc_row(fs);
        let rest = enc_table_from(all, k + 1);
        assert(enc_table_from(all, k) == rowtext + seq!['\n'] + rest);
        let whole = enc_table_from(all, k);
        assert(whole.len() == rowtext.len() + 1 + rest.len());
        let i2 = i + rowtext.len() + 1;
        assert(s.subrange(i, i + rowtext.len() + 1) =~= rowtext + seq!['\n']) by {
            assert forall|m: int| 0 <= m < rowtext.len() + 1 implies s.subrange(
                i,
                i + rowtext.len() + 1,
            )[m] == (rowtext + seq!['\n'])[m] by {
                assert(s.subrange(i, s.len() as int)[m] == s[i + m]);
                assert(whole[m] == (rowtext + seq!['\n'])[m]);
            }
        }
        assert(forall|j: int| 0 <= j < fs.len() ==> plain_text(#[trigger] fs[j]));
        lemma_parse_enc_row(s, i, fs, 0, Seq::empty(), acc);
        assert(Seq::<Seq<char>>::empty() + fs.skip(0) =~= fs);
        assert(s.subrange(i2, s.len() as int) =~= rest) by {
            assert forall|m: int| 0 <= m < rest.len() implies s.subrange(i2, s.len() as int)[m]
                == rest[m] by {
                assert(s.subrange(i, s.len() as int)[rowtext.len() + 1 + m] == s[i + rowtext.len()
                    + 1 + m]);
                assert(whole[rowtext.len() + 1 + m] == rest[m]);
            }
        }
        lemma_parse_enc_table(s, i2, all, k + 1, acc.push(fs));
        assert(acc.push(fs) + all.skip(k + 1) =~= acc + all.skip(k)) by {
            assert(all.skip(k) =~= seq![fs] + all.skip(k + 1));
        }
    }
}

/// The round trip: parsing a rendered table reproduces it exactly, for any
/// table whose rows each have at least one field and whose fields are plain
/// (no comma, quote or line break; every text this crate renders qualifies).
pub proof fn lemma_csv_round_trip(rows: Seq<Seq<Seq<char>>>)
    requires
        forall|a: int| 0 <= a < rows.len() ==> #[trigger] rows[a].len() >= 1,
        forall|a: int, b: int|
            0 <= a < rows.len() && 0 <= b < rows[a].len() ==> plain_text(#[trigger] rows[a][b]),
    ensures
        parse_table(enc_table(rows)) == Some(rows),
{
    let s = enc_table(rows);
    assert(s.subrange(0, s.len() as int) =~= s);
    lemma_parse_enc_table(s, 0, rows, 0, Seq::empty());
    assert(Seq::<Seq<Seq<char>>>::empty() + rows.skip(0) =~= rows);
}

// ---------------------------------------------------------------------------
// Datasets as tabular text
// ---------------------------------------------------------------------------
/// The header row the serializer owes: the record fields, in order.
pub open spec fn csv_header() -> Seq<char> {
    "timestamp,volume,high,low,open,close,adjclose\n"@
}

/// The header as a parsed row.
pub open spec fn header_fields() -> Seq<Seq<char>> {
    seq!["timestamp"@, "volume"@, "high"@, "low"@, "open"@, "close"@, "adjclose"@]
}

proof fn lemma_header_row()
    ensures
        csv_header() == enc_row(header_fields()) + seq!['\n'],
        header_fields().len() == 7,
        forall|j: int| 0 <= j < header_fields().len() ==> plain_text(#[trigger] header_fields()[j]),
{
    reveal_strlit("timestamp,volume,high,low,open,close,adjclose\n");
    reveal_strlit("timestamp");
    reveal_strlit("volume");
    reveal_strlit("high");
    reveal_strlit("low");
    reveal_strlit("open");
    reveal_strlit("close");
    reveal_strlit("adjclose");
    let hf = header_fields();
    assert(plain_text(hf[0]));
    assert(plain_text(hf[1]));
    assert(plain_text(hf[2]));
    assert(plain_text(hf[3]));
    assert(plain_text(hf[4]));
    assert(plain_text(hf[5]));
    assert(plain_text(hf[6]));
    reveal_with_fuel(enc_row_from, 8);
    assert(csv_header() =~= enc_row(hf) + seq!['\n']);
}

proof fn lemma_enc_table_shift(r: Seq<Seq<char>>, rest: Seq<Seq<Seq<char>>>, j: int)
    requires
        0 <= j <= rest.len(),
    ensures
        enc_table_from(seq![r] + rest, j + 1) == enc_table_from(rest, j),
    decreases rest.len() - j,
{
    let c = seq![r] + rest;
    if j < rest.len() {
        lemma_enc_table_shift(r, rest, j + 1);
        assert(c[j + 1] == rest[j]);
    }
}

/// Prepending one row prepends its line.
proof fn lemma_enc_table_cons(r: Seq<Seq<char>>, rest: Seq<Seq<Seq<char>>>)
    ensures
        enc_table(seq![r] + rest) == enc_row(r) + seq!['\n'] + enc_table(rest),
{
    let c = seq![r] + rest;
    assert(c[0] == r);
    lemma_enc_table_shift(r, rest, 0);
}

proof fn lemma_digits_plain(n: nat)
    ensures
        plain_text(dec_u64(n)),
{
    crate::num::lemma_dec_u64_round_trip(n);
    let s = dec_u64(n);
    assert forall|i: int| 0 <= i < s.len() implies !is_tab_special(#[trigger] s[i]) by {
        assert(crate::num::is_digit(s[i]));
    }
}

/// Every price text of the dataset is plain; true of any decimal rendering.
pub open spec fn prices_plain(d: DataSet) -> bool {
    forall|i: int|
        0 <= i < d.records@.len() ==> {
            let r = #[trigger] d.records@[i];
            &&& plain_text(r.high@)
            &&& plain_text(r.low@)
            &&& plain_text(r.open@)
            &&& plain_text(r.close@)
            &&& plain_text(r.adjclose@)
        }
}

/// One record's seven fields: the RFC 3339 timestamp text, the decimal
/// volume, and the five price texts, in the header's order.
pub open spec fn record_fields(r: Record) -> Seq<Seq<char>> {
    seq![
        rfc3339_of(r.timestamp.utc_seconds as int, r.timestamp.offset_seconds as int),
        dec_u64(r.volume as nat),
        r.high@,
        r.low@,
        r.open@,
        r.close@,
        r.adjclose@,
    ]
}

pub open spec fn dataset_rows(d: DataSet) -> Seq<Seq<Seq<char>>> {
    d.records@.map_values(|r: Record| record_fields(r))
}

/// The full tabular text of a dataset: header plus one line per record.
pub open spec fn dataset_csv(d: DataSet) -> Seq<char> {
    csv_header() + enc_table(dataset_rows(d))
}

/// Every record's timestamp can be rendered.
pub open spec fn dataset_renderable(d: DataSet) -> bool {
    forall|i: int|
        0 <= i < d.records@.len() ==> instant_renderable(#[trigger] d.records@[i].timestamp)
}

/// Renders a dataset as tabular text: the header row, then one line per
/// record in record order. `None` only when some timestamp is out of the
/// renderable range.
pub fn dataset_to_csv(ds: &DataSet) -> (r: Option<String>)
    ensures
        r matches Some(s) ==> s@ == dataset_csv(*ds),
        dataset_renderable(*ds) ==> r is Some,
        r is None ==> !dataset_renderable(*ds),
        r matches Some(s) ==> (prices_plain(*ds) ==> parse_table(s@) == Some(
            seq![header_fields()] + dataset_rows(*ds),
        )),
{
    let n = ds.records.len();
    let mut rows: Vec<Vec<String>> = Vec::new();
    let mut i: usize = 0;
    while i < n
        invariant
            0 <= i <= n,
            n == ds.records@.len(),
            rows@.len() == i,
            forall|k: int|
                0 <= k < i ==> #[trigger] rows.deep_view()[k] == record_fields(ds.records@[k]),
            forall|k: int| 0 <= k < i ==> plain_text(#[trigger] record_fields(ds.records@[k])[0]),
        decreases n - i,
    {
        let rec = &ds.records[i];
        let ts = match format_timestamp(rec.timestamp) {
            Some(t) => t,
            None => {
                assert(!instant_renderable(ds.records@[i as int].timestamp));
                return None;
            },
        };
        let mut row: Vec<String> = Vec::new();
        row.push(ts);
        row.push(u64_to_string(rec.volume));
        row.push(rec.high.clone());
        row.push(rec.low.clone());
        row.push(rec.open.clone());
        row.push(rec.close.clone());
        row.push(rec.adjclose.clone());
        proof {
            assert(row.deep_view() =~= record_fields(ds.records@[i as int]));
        }
        let ghost rows0 = rows.deep_view();
        let ghost rowv = row.deep_view();
        rows.push(row);
        proof {
            assert(rows.deep_view() =~= rows0.push(rowv));
        }
        i = i + 1;
    }
    let mut out = String::new();
    push_str(&mut out, "timestamp,volume,high,low,open,close,adjclose\n");
    push_enc_table(&mut out, &rows, 0);
    proof {
        assert(rows.deep_view() =~= dataset_rows(*ds));
        assert(out@ =~= dataset_csv(*ds));
        if prices_plain(*ds) {
            let body = dataset_rows(*ds);
            let full = seq![header_fields()] + body;
            lemma_header_row();
            assert forall|a: int| 0 <= a < full.len() implies #[trigger] full[a].len() >= 1 by {
                if a > 0 {
                    assert(full[a] == record_fields(ds.records@[a - 1]));
                }
            }
            assert forall|a: int, b: int|
                0 <= a < full.len() && 0 <= b < full[a].len() implies plain_text(
                #[trigger] full[a][b],
            ) by {
                if a == 0 {
                    assert(full[0] == header_fields());
                } else {
                    let rec = ds.records@[a - 1];
                    assert(full[a] == record_fields(rec));
                    if b == 0 {
                        assert(plain_text(record_fields(rec)[0]));
                    } else if b == 1 {
                        lemma_digits_plain(rec.volume as nat);
                    }
                }
            }
            lemma_csv_round_trip(full);
            lemma_enc_table_cons(header_fields(), body);
            assert(enc_table(full) =~= csv_header() + enc_table(body));
            assert(parse_table(out@) == Some(full));
        }
    }
    Some(out)
}

// ---------------------------------------------------------------------------
// Whole-payload conversion
// ---------------------------------------------------------------------------
/// The rows a well-formed segment's dataset renders to.
pub open spec fn seg_rows(seg: crate::chart::V8Result) -> Seq<Seq<Seq<char>>> {
    Seq::new(seg.timestamp@.len(), |i: int| record_fields(spec_record(seg, i)))
}

/// The tabular text owed for a well-formed segment.
pub open spec fn seg_csv(seg: crate::chart::V8Result) -> Seq<char> {
    csv_header() + enc_table(seg_rows(seg))
}

/// Every price text of the segment's columns is plain; true of any decimal
/// rendering of a number.
pub open spec fn seg_prices_plain(seg: crate::chart::V8Result) -> bool {
    forall|i: int|
        0 <= i < seg.timestamp@.len() ==> {
            let r = #[trigger] spec_record(seg, i);
            &&& plain_text(r.high@)
            &&& plain_text(r.low@)
            &&& plain_text(r.open@)
            &&& plain_text(r.close@)
            &&& plain_text(r.adjclose@)
        }
}

pub open spec fn convert_post(
    seg: crate::chart::V8Result,
    out: Result<String, SegmentError>,
) -> bool {
    &&& out is Ok <==> seg_well_formed(seg)
    &&& (out matches Ok(s) ==> s@ == seg_csv(seg))
    &&& (out matches Ok(s) ==> (seg_prices_plain(seg) ==> parse_table(s@) == Some(
        seq![header_fields()] + seg_rows(seg),
    )))
    &&& (out matches Err(e) ==> e == seg_error(seg))
}

/// Converts a whole decoded payload to tabular text, one CSV per segment,
/// in segment order; a rejected segment yields its error and never affects
/// the others.
pub fn convert_to_csv(wrapper: ChartWrapper) -> (r: Vec<Result<String, SegmentError>>)
    ensures
        r@.len() == wrapper.chart.result@.len(),
        forall|i: int|
            0 <= i < r@.len() ==> convert_post(wrapper.chart.result@[i], #[trigger] r@[i]),
{
    let ghost orig = wrapper.chart.result@;
    let mut segs = wrapper.chart.result;
    let mut out: Vec<Result<String, SegmentError>> = Vec::new();
    while segs.len() > 0
        invariant
            out@.len() + segs@.len() == orig.len(),
            segs@ =~= orig.subrange(out@.len() as int, orig.len() as int),
            forall|i: int| 0 <= i < out@.len() ==> convert_post(orig[i], #[trigger] out@[i]),
        decreases segs@.len(),
    {
        let seg = segs.remove(0);
        assert(seg == orig[out@.len() as int]);
        let item = match segment_to_dataset(seg) {
            Err(e) => Err(e),
            Ok(ds) => {
                assert forall|k: int| 0 <= k < ds.records@.len() implies instant_renderable(
                    #[trigger] ds.records@[k].timestamp,
                ) by {
                    assert(ds.records@[k] == spec_record(orig[out@.len() as int], k));
                }
                let text = match dataset_to_csv(&ds) {
                    Some(t) => t,
                    None => {
                        proof {
                            assert(false);
                        }
                        return out;
                    },
                };
                proof {
                    let seg = orig[out@.len() as int];
                    assert(dataset_rows(ds) =~= seg_rows(seg));
                    if seg_prices_plain(seg) {
                        assert forall|k: int| 0 <= k < ds.records@.len() implies ({
                            let r = #[trigger] ds.records@[k];
                            &&& plain_text(r.high@)
                            &&& plain_text(r.low@)
                            &&& plain_text(r.open@)
                            &&& plain_text(r.close@)
                            &&& plain_text(r.adjclose@)
                        }) by {
                            assert(ds.records@[k] == spec_record(seg, k));
                        }
                        assert(prices_plain(ds));
                        assert(seq![header_fields()] + dataset_rows(ds) =~= seq![header_fields()]
                            + seg_rows(seg));
                    }
                }
                Ok(text)
            },
        };
        out.push(item);
        proof {
            assert(segs@ =~= orig.subrange(out@.len() as int, orig.len() as int));
        }
    }
    out
}

} // verus!
