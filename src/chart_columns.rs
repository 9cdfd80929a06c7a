//! Minute observations assembled from the column layout of an intraday
//! chart answer: one timestamp column and five value columns whose entries
//! may be missing.

use crate::exchange_clock::{exchange_local_of, to_exchange_local};
use crate::market::MinuteBar;
use vstd::prelude::*;

verus! {

/// The columns of an intraday chart answer. Prices are in millionths.
#[derive(Clone, Debug)]
pub struct ChartColumns {
    pub timestamps: Vec<i64>,
    pub open: Vec<Option<i64>>,
    pub high: Vec<Option<i64>>,
    pub low: Vec<Option<i64>>,
    pub close: Vec<Option<i64>>,
    pub volume: Vec<Option<u64>>,
}

/// Why columns could not be read as minutes.
#[derive(Clone, Copy, Debug, PartialEq, Eq, Structural)]
pub enum ColumnsError {
    /// The timestamp at this row names no representable instant.
    InvalidTimestamp(usize),
}

/// Entry `i` of a column, where the column has it and it is present.
pub open spec fn entry<T>(col: Seq<Option<T>>, i: int) -> Option<T> {
    if 0 <= i < col.len() {
        col[i]
    } else {
        None
    }
}

/// The minute of row `i`, where all five values are present.
pub open spec fn row_minute(c: ChartColumns, i: int) -> Option<MinuteBar> {
    match (entry(c.open@, i), entry(c.high@, i), entry(c.low@, i), entry(c.close@, i), entry(c.volume@, i)) {
        (Some(o), Some(h), Some(l), Some(cl), Some(v)) => Some(
            MinuteBar { ts_utc: c.timestamps@[i], o, h, l, c: cl, v },
        ),
        _ => None,
    }
}

/// The minutes of the first `n` rows, in row order, rows with a missing
/// value skipped.
pub open spec fn rows_upto(c: ChartColumns, n: int) -> Seq<MinuteBar>
    decreases n,
{
    if n <= 0 {
        Seq::empty()
    } else {
        match row_minute(c, n - 1) {
            Some(m) => rows_upto(c, n - 1).push(m),
            None => rows_upto(c, n - 1),
        }
    }
}

/// The first complete row whose timestamp names no instant, if any, among
/// the first `n`.
pub open spec fn first_bad_row(c: ChartColumns, n: int) -> Option<int>
    decreases n,
{
    if n <= 0 {
        None
    } else {
        match first_bad_row(c, n - 1) {
            Some(i) => Some(i),
            None => if row_minute(c, n - 1) is Some && exchange_local_of(c.timestamps@[n - 1] as int) is None {
                Some(n - 1)
            } else {
                None
            },
        }
    }
}

proof fn lemma_first_bad_row_stays(c: ChartColumns, k: int, m: int)
    requires
        0 <= k <= m,
        first_bad_row(c, k) is Some,
    ensures
        first_bad_row(c, m) == first_bad_row(c, k),
    decreases m - k,
{
    if m > k {
        lemma_first_bad_row_stays(c, k, m - 1);
    }
}

fn entry_at<T: Copy>(col: &Vec<Option<T>>, i: usize) -> (r: Option<T>)
    ensures
        r == entry(col@, i as int),
{
    if i < col.len() {
        col[i]
    } else {
        None
    }
}

/// The minutes of all rows whose five values are present, in row order; an
/// error naming the first such row whose timestamp names no instant.
pub fn minutes_from_columns(c: &ChartColumns) -> (r: Result<Vec<MinuteBar>, ColumnsError>)
    ensures
        match r {
            Ok(ms) => first_bad_row(*c, c.timestamps@.len() as int) is None && ms@ == rows_upto(*c, c.timestamps@.len() as int),
            Err(ColumnsError::InvalidTimestamp(i)) => first_bad_row(*c, c.timestamps@.len() as int) == Some(i as int),
        },
{
    let n = c.timestamps.len();
    let mut out: Vec<MinuteBar> = Vec::new();
    let mut i: usize = 0;
    while i < n
        invariant
            n == c.timestamps@.len(),
            i <= n,
            first_bad_row(*c, i as int) is None,
            out@ == rows_upto(*c, i as int),
        decreases n - i,
    {
        let ts = c.timestamps[i];
        match (
            entry_at(&c.open, i),
            entry_at(&c.high, i),
            entry_at(&c.low, i),
            entry_at(&c.close, i),
            entry_at(&c.volume, i),
        ) {
            (Some(o), Some(h), Some(l), Some(cl), Some(v)) => {
                if to_exchange_local(ts).is_none() {
                    proof {
                        lemma_first_bad_row_stays(*c, i + 1, n as int);
                    }
                    return Err(ColumnsError::InvalidTimestamp(i));
                }
                out.push(MinuteBar { ts_utc: ts, o, h, l, c: cl, v });
            },
            _ => {},
        }
        i = i + 1;
    }
    Ok(out)
}

} // verus!
