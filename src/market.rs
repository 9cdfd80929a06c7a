//! The resampling engine: minute observations in, session-bounded hourly
//! bars of the most recent trading days out.
//!
//! The engine works in two steps. `resample_readings` does the whole
//! grouping, windowing and folding on minutes paired with their readings on
//! the exchange's clock, and keys each bar by its trading day and bucket.
//! `resample_1h_regular_session` takes those readings from the time-zone
//! table and renders each bar's start.

use crate::exchange_clock::{
    bucket_index, bucket_label, bucket_of, bucket_start_label, date_before, date_lt,
    exchange_local_of, in_session, is_regular_session, to_exchange_local, valid_reading,
    LocalDate, LocalStamp,
};
use crate::text::{to_upper, upper_of};
use vstd::prelude::*;

verus! {

/// Number of buckets in a regular session: six full hours and the
/// half-hour tail `[15:30, 16:00)`.
pub const SESSION_BUCKETS: i64 = 7;

/// One minute observation. Prices are in millionths of the quote currency,
/// the instant is in seconds since the Unix epoch.
#[derive(Clone, Copy, Debug, PartialEq, Eq, Structural)]
pub struct MinuteBar {
    pub ts_utc: i64,
    pub o: i64,
    pub h: i64,
    pub l: i64,
    pub c: i64,
    pub v: u64,
}

/// One hourly bar: its start as exchange-local RFC 3339 text and the folded
/// open, high, low, close and volume.
#[derive(Clone, Debug)]
pub struct HourBar {
    pub ts_local: String,
    pub o: i64,
    pub h: i64,
    pub l: i64,
    pub c: i64,
    pub v: u64,
}

/// The result of a resampling: the upper-cased instrument, the window asked
/// for, and the bars in chronological order.
#[derive(Clone, Debug)]
pub struct PriceChart1H {
    pub ticker: String,
    pub window_days: i64,
    pub bars: Vec<HourBar>,
}

/// Open, high, low, close and volume as mathematical integers.
pub struct Ohlcv {
    pub o: int,
    pub h: int,
    pub l: int,
    pub c: int,
    pub v: int,
}

impl View for HourBar {
    type V = (Seq<char>, Ohlcv);

    open spec fn view(&self) -> (Seq<char>, Ohlcv) {
        (
            self.ts_local@,
            Ohlcv {
                o: self.o as int,
                h: self.h as int,
                l: self.l as int,
                c: self.c as int,
                v: self.v as int,
            },
        )
    }
}

/// A bar keyed by its trading day and its bucket of that day.
#[derive(Clone, Copy, Debug, PartialEq, Eq, Structural)]
pub struct SessionBar {
    pub date: LocalDate,
    pub bucket: i64,
    pub o: i64,
    pub h: i64,
    pub l: i64,
    pub c: i64,
    pub v: u64,
}

impl View for SessionBar {
    type V = (LocalDate, int, Ohlcv);

    open spec fn view(&self) -> (LocalDate, int, Ohlcv) {
        (
            self.date,
            self.bucket as int,
            Ohlcv {
                o: self.o as int,
                h: self.h as int,
                l: self.l as int,
                c: self.c as int,
                v: self.v as int,
            },
        )
    }
}

/// The views of a sequence of bars.
pub open spec fn bars_view(bars: Seq<HourBar>) -> Seq<(Seq<char>, Ohlcv)> {
    bars.map_values(|b: HourBar| b@)
}

/// The views of a sequence of keyed bars.
pub open spec fn session_bars_view(bars: Seq<SessionBar>) -> Seq<(LocalDate, int, Ohlcv)> {
    bars.map_values(|b: SessionBar| b@)
}

/// Each minute with its reading on the exchange's clock.
pub open spec fn paired(ms: Seq<MinuteBar>, ls: Seq<Option<LocalStamp>>) -> Seq<(MinuteBar, Option<LocalStamp>)> {
    Seq::new(ms.len(), |i: int| (ms[i], ls[i]))
}

/// The readings that the time-zone table gives for the minutes.
pub open spec fn exchange_readings(ms: Seq<MinuteBar>) -> Seq<Option<LocalStamp>> {
    Seq::new(ms.len(), |i: int| exchange_local_of(ms[i].ts_utc as int))
}

/// A reading, kept only where it lies in the regular session.
pub open spec fn session_reading(l: Option<LocalStamp>) -> Option<LocalStamp> {
    match l {
        Some(s) => if in_session(s.hour as int, s.minute as int) {
            Some(s)
        } else {
            None
        },
        None => None,
    }
}

/// Sum of the volumes of a sequence of minutes.
pub open spec fn total_volume(ms: Seq<MinuteBar>) -> int
    decreases ms.len(),
{
    if ms.len() == 0 {
        0
    } else {
        total_volume(ms.drop_last()) + ms.last().v
    }
}

/// Sum of the volumes of a sequence of paired minutes.
pub open spec fn paired_volume(xs: Seq<(MinuteBar, Option<LocalStamp>)>) -> int
    decreases xs.len(),
{
    if xs.len() == 0 {
        0
    } else {
        paired_volume(xs.drop_last()) + xs.last().0.v
    }
}

/// Adds date `d` to a chronologically ordered sequence of distinct dates.
pub open spec fn insert_day(s: Seq<LocalDate>, d: LocalDate) -> Seq<LocalDate>
    decreases s.len(),
{
    if s.len() == 0 {
        seq![d]
    } else if date_lt(d, s[0]) {
        seq![d] + s
    } else if d == s[0] {
        s
    } else {
        seq![s[0]] + insert_day(s.drop_first(), d)
    }
}

/// The trading days: the local dates of the session minutes, in ascending
/// order, each once.
pub open spec fn trading_days(xs: Seq<(MinuteBar, Option<LocalStamp>)>) -> Seq<LocalDate>
    decreases xs.len(),
{
    if xs.len() == 0 {
        Seq::empty()
    } else {
        let prev = trading_days(xs.drop_last());
        match session_reading(xs.last().1) {
            Some(l) => insert_day(prev, l.date),
            None => prev,
        }
    }
}

/// The last `min(n, days.len())` days; none where `n <= 0`.
pub open spec fn last_days(days: Seq<LocalDate>, n: int) -> Seq<LocalDate> {
    if n <= 0 {
        Seq::empty()
    } else if days.len() > n {
        days.subrange(days.len() - n, days.len() as int)
    } else {
        days
    }
}

/// A minute is a session minute of day `d` in bucket `k`.
pub open spec fn in_bucket(x: (MinuteBar, Option<LocalStamp>), d: LocalDate, k: int) -> bool {
    match session_reading(x.1) {
        Some(l) => l.date == d && bucket_of(l.hour as int, l.minute as int) == k,
        None => false,
    }
}

/// Folds minute `b` into a bucket: the first minute sets all five fields;
/// a later one raises the high, lowers the low, replaces the close and adds
/// its volume.
pub open spec fn absorb(acc: Option<Ohlcv>, b: MinuteBar) -> Ohlcv {
    match acc {
        None => Ohlcv { o: b.o as int, h: b.h as int, l: b.l as int, c: b.c as int, v: b.v as int },
        Some(a) => Ohlcv {
            o: a.o,
            h: if b.h > a.h { b.h as int } else { a.h },
            l: if b.l < a.l { b.l as int } else { a.l },
            c: b.c as int,
            v: a.v + b.v,
        },
    }
}

/// The fold, in arrival order, of the minutes of day `d` in bucket `k`;
/// `None` where the bucket received none.
pub open spec fn bucket_fold(xs: Seq<(MinuteBar, Option<LocalStamp>)>, d: LocalDate, k: int) -> Option<Ohlcv>
    decreases xs.len(),
{
    if xs.len() == 0 {
        None
    } else {
        let prev = bucket_fold(xs.drop_last(), d, k);
        if in_bucket(xs.last(), d, k) {
            Some(absorb(prev, xs.last().0))
        } else {
            prev
        }
    }
}

/// The bars of buckets `0 .. k` of day `d`, in bucket order, one for each
/// bucket that received minutes.
pub open spec fn day_bars_upto(xs: Seq<(MinuteBar, Option<LocalStamp>)>, d: LocalDate, k: int) -> Seq<(LocalDate, int, Ohlcv)>
    decreases k,
{
    if k <= 0 {
        Seq::empty()
    } else {
        let prev = day_bars_upto(xs, d, k - 1);
        match bucket_fold(xs, d, k - 1) {
            Some(a) => prev.push((d, k - 1, a)),
            None => prev,
        }
    }
}

/// The bars of day `d`.
pub open spec fn day_bars(xs: Seq<(MinuteBar, Option<LocalStamp>)>, d: LocalDate) -> Seq<(LocalDate, int, Ohlcv)> {
    day_bars_upto(xs, d, SESSION_BUCKETS as int)
}

/// The bars of the given days, day after day.
pub open spec fn bars_of_days(xs: Seq<(MinuteBar, Option<LocalStamp>)>, days: Seq<LocalDate>) -> Seq<(LocalDate, int, Ohlcv)>
    decreases days.len(),
{
    if days.len() == 0 {
        Seq::empty()
    } else {
        bars_of_days(xs, days.drop_last()) + day_bars(xs, days.last())
    }
}

/// The keyed bars of the last `n` trading days.
pub open spec fn session_chart(xs: Seq<(MinuteBar, Option<LocalStamp>)>, n: int) -> Seq<(LocalDate, int, Ohlcv)> {
    bars_of_days(xs, last_days(trading_days(xs), n))
}

/// Keyed bars with their starts rendered; a bar whose start cannot be
/// rendered is left out.
pub open spec fn labelled(kb: Seq<(LocalDate, int, Ohlcv)>) -> Seq<(Seq<char>, Ohlcv)>
    decreases kb.len(),
{
    if kb.len() == 0 {
        Seq::empty()
    } else {
        let prev = labelled(kb.drop_last());
        match bucket_label(kb.last().0, kb.last().1) {
            Some(t) => prev.push((t, kb.last().2)),
            None => prev,
        }
    }
}

/// The hourly bars of the last `n` trading days of `ms`.
pub open spec fn chart_bars(ms: Seq<MinuteBar>, n: int) -> Seq<(Seq<char>, Ohlcv)> {
    labelled(session_chart(paired(ms, exchange_readings(ms)), n))
}

/// `r` is the chart of `minutes` for `ticker` over the last `window_days`
/// trading days.
pub open spec fn is_resampling(ticker: Seq<char>, minutes: Seq<MinuteBar>, window_days: i64, r: PriceChart1H) -> bool {
    &&& r.ticker@ == upper_of(ticker)
    &&& r.window_days == window_days
    &&& bars_view(r.bars@) == chart_bars(minutes, window_days as int)
}

/// A session minute falls in one of the session's buckets.
pub proof fn lemma_session_bucket(hour: int, minute: int)
    requires
        0 <= minute < 60,
        in_session(hour, minute),
    ensures
        0 <= bucket_of(hour, minute) < SESSION_BUCKETS,
{
}

proof fn lemma_paired_volume(ms: Seq<MinuteBar>, ls: Seq<Option<LocalStamp>>)
    requires
        ms.len() == ls.len(),
    ensures
        paired_volume(paired(ms, ls)) == total_volume(ms),
    decreases ms.len(),
{
    if ms.len() > 0 {
        lemma_paired_volume(ms.drop_last(), ls.drop_last());
        assert(paired(ms, ls).drop_last() =~= paired(ms.drop_last(), ls.drop_last()));
    }
}

/// Every bucket's volume fits in 64 bits.
pub open spec fn volumes_fit(xs: Seq<(MinuteBar, Option<LocalStamp>)>) -> bool {
    forall|d: LocalDate, k: int| #[trigger] bucket_fold(xs, d, k) matches Some(a) ==> a.v <= u64::MAX
}

proof fn lemma_fold_grows(xs: Seq<(MinuteBar, Option<LocalStamp>)>, i: int, d: LocalDate, k: int)
    requires
        0 <= i <= xs.len(),
    ensures
        bucket_fold(xs.take(i), d, k) matches Some(a) ==> bucket_fold(xs, d, k) matches Some(b) && a.v <= b.v,
    decreases xs.len(),
{
    if i == xs.len() {
        assert(xs.take(i) =~= xs);
    } else {
        lemma_fold_grows(xs.drop_last(), i, d, k);
        assert(xs.drop_last().take(i) =~= xs.take(i));
    }
}

proof fn lemma_fold_volume(xs: Seq<(MinuteBar, Option<LocalStamp>)>, d: LocalDate, k: int)
    ensures
        bucket_fold(xs, d, k) matches Some(a) ==> 0 <= a.v <= paired_volume(xs),
        paired_volume(xs) >= 0,
    decreases xs.len(),
{
    if xs.len() > 0 {
        lemma_fold_volume(xs.drop_last(), d, k);
    }
}

proof fn lemma_insert_at(s: Seq<LocalDate>, d: LocalDate, p: int)
    requires
        0 <= p <= s.len(),
        forall|j: int| 0 <= j < p ==> date_lt(#[trigger] s[j], d),
        p < s.len() ==> !date_lt(s[p], d),
    ensures
        insert_day(s, d) == if p < s.len() && s[p] == d {
            s
        } else {
            s.insert(p, d)
        },
    decreases p,
{
    if p == 0 {
        if s.len() > 0 && s[0] != d {
            assert(date_lt(d, s[0]));
        }
        assert(seq![d] + s =~= s.insert(0, d));
    } else {
        let t = s.drop_first();
        assert forall|j: int| 0 <= j < p - 1 implies date_lt(#[trigger] t[j], d) by {
            assert(t[j] == s[j + 1]);
        }
        lemma_insert_at(t, d, p - 1);
        assert(date_lt(s[0], d));
        if p < s.len() && s[p] == d {
            assert(seq![s[0]] + t =~= s);
        } else {
            assert(seq![s[0]] + t.insert(p - 1, d) =~= s.insert(p, d));
        }
    }
}

/// Adds `d` to the day list `days`, keeping it as `insert_day` describes.
fn add_day(days: &mut Vec<LocalDate>, d: LocalDate)
    ensures
        final(days)@ == insert_day(old(days)@, d),
{
    let n = days.len();
    let mut p: usize = 0;
    while p < n && date_before(&days[p], &d)
        invariant
            n == days.len(),
            p <= n,
            forall|j: int| 0 <= j < p ==> date_lt(#[trigger] days@[j], d),
        decreases n - p,
    {
        p = p + 1;
    }
    proof {
        lemma_insert_at(days@, d, p as int);
    }
    if p < n && days[p] == d {
        return;
    }
    days.insert(p, d);
}

/// The running fold of one bucket.
#[derive(Clone, Copy)]
struct Running {
    o: i64,
    h: i64,
    l: i64,
    c: i64,
    v: u64,
}

spec fn running_view(r: Option<Running>) -> Option<Ohlcv> {
    match r {
        Some(a) => Some(Ohlcv { o: a.o as int, h: a.h as int, l: a.l as int, c: a.c as int, v: a.v as int }),
        None => None,
    }
}

fn absorb_minute(acc: Option<Running>, b: &MinuteBar) -> (r: Running)
    requires
        acc matches Some(a) ==> a.v + b.v <= u64::MAX,
    ensures
        running_view(Some(r)) == Some(absorb(running_view(acc), *b)),
{
    match acc {
        None => Running { o: b.o, h: b.h, l: b.l, c: b.c, v: b.v },
        Some(a) => Running {
            o: a.o,
            h: if b.h > a.h { b.h } else { a.h },
            l: if b.l < a.l { b.l } else { a.l },
            c: b.c,
            v: a.v + b.v,
        },
    }
}

/// The session readings of the minutes, and their trading days.
fn scan_sessions(minutes: &[MinuteBar], readings: &Vec<Option<LocalStamp>>) -> (r: (Vec<Option<LocalStamp>>, Vec<LocalDate>))
    requires
        readings@.len() == minutes@.len(),
        forall|j: int| 0 <= j < readings@.len() ==> (#[trigger] readings@[j] matches Some(l) ==> valid_reading(l)),
    ensures
        r.0@.len() == minutes@.len(),
        forall|j: int| 0 <= j < minutes@.len() ==> #[trigger] r.0@[j] == session_reading(readings@[j]),
        r.1@ == trading_days(paired(minutes@, readings@)),
{
    let ghost xs = paired(minutes@, readings@);
    let mut stamps: Vec<Option<LocalStamp>> = Vec::new();
    let mut days: Vec<LocalDate> = Vec::new();
    let n = minutes.len();
    let mut i: usize = 0;
    while i < n
        invariant
            n == minutes@.len(),
            n == readings@.len(),
            xs == paired(minutes@, readings@),
            i <= n,
            stamps@.len() == i,
            forall|j: int| 0 <= j < i ==> #[trigger] stamps@[j] == session_reading(readings@[j]),
            days@ == trading_days(xs.take(i as int)),
        decreases n - i,
    {
        let here = match readings[i] {
            Some(l) => if is_regular_session(&l) {
                Some(l)
            } else {
                None
            },
            None => None,
        };
        if let Some(l) = here {
            add_day(&mut days, l.date);
        }
        assert(xs.take(i + 1).drop_last() =~= xs.take(i as int));
        stamps.push(here);
        i = i + 1;
    }
    assert(xs.take(n as int) =~= xs);
    (stamps, days)
}

/// The last `window_days` entries of `days`.
fn select_last_days(days: &Vec<LocalDate>, window_days: i64) -> (r: Vec<LocalDate>)
    ensures
        r@ == last_days(days@, window_days as int),
{
    let mut kept: Vec<LocalDate> = Vec::new();
    if window_days <= 0 {
        return kept;
    }
    let n = days.len();
    let start: usize = if (window_days as u64) < (n as u64) { n - (window_days as usize) } else { 0 };
    let mut i: usize = start;
    while i < n
        invariant
            n == days@.len(),
            start <= i <= n,
            kept@ == days@.subrange(start as int, i as int),
        decreases n - i,
    {
        kept.push(days[i]);
        assert(days@.subrange(start as int, i + 1) =~= days@.subrange(start as int, i as int).push(days@[i as int]));
        i = i + 1;
    }
    assert(days@.subrange(0, n as int) =~= days@);
    kept
}

/// Appends the bars of day `d` to `out`.
fn resample_day(
    minutes: &[MinuteBar],
    readings: &Vec<Option<LocalStamp>>,
    stamps: &Vec<Option<LocalStamp>>,
    d: LocalDate,
    out: &mut Vec<SessionBar>,
)
    requires
        readings@.len() == minutes@.len(),
        volumes_fit(paired(minutes@, readings@)),
        stamps@.len() == minutes@.len(),
        forall|j: int| 0 <= j < minutes@.len() ==> #[trigger] stamps@[j] == session_reading(readings@[j]),
        forall|j: int| 0 <= j < readings@.len() ==> (#[trigger] readings@[j] matches Some(l) ==> valid_reading(l)),
    ensures
        session_bars_view(final(out)@) == session_bars_view(old(out)@) + day_bars(paired(minutes@, readings@), d),
{
    let ghost xs = paired(minutes@, readings@);
    let mut accs: Vec<Option<Running>> = Vec::new();
    let mut k: usize = 0;
    while k < 7
        invariant
            k <= 7,
            accs@.len() == k,
            forall|x: int| 0 <= x < k ==> #[trigger] accs@[x] is None,
        decreases 7 - k,
    {
        accs.push(None);
        k = k + 1;
    }
    let n = minutes.len();
    let mut i: usize = 0;
    while i < n
        invariant
            n == minutes@.len(),
            n == readings@.len(),
            xs == paired(minutes@, readings@),
            i <= n,
            accs@.len() == 7,
            volumes_fit(xs),
            stamps@.len() == n,
            forall|j: int| 0 <= j < n ==> #[trigger] stamps@[j] == session_reading(readings@[j]),
            forall|j: int| 0 <= j < n ==> (#[trigger] readings@[j] matches Some(l) ==> valid_reading(l)),
            forall|x: int| 0 <= x < 7 ==> #[trigger] running_view(accs@[x]) == bucket_fold(xs.take(i as int), d, x),
        decreases n - i,
    {
        let ghost pre = xs.take(i as int);
        let ghost cur = xs.take(i + 1);
        assert(cur.drop_last() =~= pre);
        assert(cur.last() == xs[i as int]);
        assert(xs[i as int] == (minutes@[i as int], readings@[i as int]));
        if let Some(l) = stamps[i] {
            assert(valid_reading(l));
            if l.date == d {
                let b = minutes[i];
                let x = bucket_index(l.hour, l.minute);
                proof {
                    lemma_session_bucket(l.hour as int, l.minute as int);
                    lemma_fold_grows(xs, i + 1, d, x as int);
                }
                let xi = x as usize;
                assert(running_view(accs@[x as int]) == bucket_fold(pre, d, x as int));
                assert(in_bucket(cur.last(), d, x as int));
                assert(bucket_fold(cur, d, x as int) == Some(absorb(bucket_fold(pre, d, x as int), b)));
                let a = absorb_minute(accs[xi], &b);
                accs.set(xi, Some(a));
                assert forall|y: int| 0 <= y < 7 implies #[trigger] running_view(accs@[y]) == bucket_fold(cur, d, y) by {
                    if y != x {
                        assert(!in_bucket(xs[i as int], d, y));
                    }
                }
            } else {
                assert forall|y: int| 0 <= y < 7 implies #[trigger] running_view(accs@[y]) == bucket_fold(cur, d, y) by {
                    assert(!in_bucket(xs[i as int], d, y));
                }
            }
        } else {
            assert forall|y: int| 0 <= y < 7 implies #[trigger] running_view(accs@[y]) == bucket_fold(cur, d, y) by {
                assert(!in_bucket(xs[i as int], d, y));
            }
        }
        i = i + 1;
    }
    assert(xs.take(n as int) =~= xs);
    let ghost before = session_bars_view(out@);
    let mut x: usize = 0;
    while x < 7
        invariant
            x <= 7,
            accs@.len() == 7,
            forall|y: int| 0 <= y < 7 ==> #[trigger] running_view(accs@[y]) == bucket_fold(xs, d, y),
            session_bars_view(out@) == before + day_bars_upto(xs, d, x as int),
        decreases 7 - x,
    {
        let ghost old_out = out@;
        assert(running_view(accs@[x as int]) == bucket_fold(xs, d, x as int));
        if let Some(a) = accs[x] {
            out.push(SessionBar { date: d, bucket: x as i64, o: a.o, h: a.h, l: a.l, c: a.c, v: a.v });
            assert(session_bars_view(out@) =~= session_bars_view(old_out).push(out@.last()@));
        }
        x = x + 1;
    }
}

/// The keyed hourly bars of the regular session (09:30 to 16:00 on the
/// exchange's clock) of the last `window_days` trading days, from the minutes
/// and their clock readings (`None` for a minute that has no reading).
pub fn resample_readings(minutes: &[MinuteBar], readings: &Vec<Option<LocalStamp>>, window_days: i64) -> (r: Vec<SessionBar>)
    requires
        readings@.len() == minutes@.len(),
        forall|j: int| 0 <= j < readings@.len() ==> (#[trigger] readings@[j] matches Some(l) ==> valid_reading(l)),
        volumes_fit(paired(minutes@, readings@)),
    ensures
        session_bars_view(r@) == session_chart(paired(minutes@, readings@), window_days as int),
{
    let (stamps, days) = scan_sessions(minutes, readings);
    let keep = select_last_days(&days, window_days);
    let ghost xs = paired(minutes@, readings@);
    let mut bars: Vec<SessionBar> = Vec::new();
    let m = keep.len();
    let mut j: usize = 0;
    while j < m
        invariant
            m == keep@.len(),
            j <= m,
            xs == paired(minutes@, readings@),
            readings@.len() == minutes@.len(),
            volumes_fit(xs),
            stamps@.len() == minutes@.len(),
            forall|i: int| 0 <= i < minutes@.len() ==> #[trigger] stamps@[i] == session_reading(readings@[i]),
            forall|i: int| 0 <= i < readings@.len() ==> (#[trigger] readings@[i] matches Some(l) ==> valid_reading(l)),
            session_bars_view(bars@) == bars_of_days(xs, keep@.take(j as int)),
        decreases m - j,
    {
        resample_day(minutes, readings, &stamps, keep[j], &mut bars);
        assert(keep@.take(j + 1).drop_last() =~= keep@.take(j as int));
        j = j + 1;
    }
    assert(keep@.take(m as int) =~= keep@);
    bars
}

/// The readings of the minutes on the exchange's clock.
fn exchange_readings_of(minutes: &[MinuteBar]) -> (r: Vec<Option<LocalStamp>>)
    ensures
        r@ == exchange_readings(minutes@),
        forall|j: int| 0 <= j < r@.len() ==> (#[trigger] r@[j] matches Some(l) ==> valid_reading(l)),
{
    let mut out: Vec<Option<LocalStamp>> = Vec::new();
    let n = minutes.len();
    let mut i: usize = 0;
    while i < n
        invariant
            n == minutes@.len(),
            i <= n,
            out@.len() == i,
            forall|j: int| 0 <= j < i ==> #[trigger] out@[j] == exchange_local_of(minutes@[j].ts_utc as int),
            forall|j: int| 0 <= j < i ==> (#[trigger] out@[j] matches Some(l) ==> valid_reading(l)),
        decreases n - i,
    {
        out.push(to_exchange_local(minutes[i].ts_utc));
        i = i + 1;
    }
    assert(out@ =~= exchange_readings(minutes@));
    out
}

/// Keyed bars with their starts rendered, those whose start cannot be
/// rendered left out.
pub fn label_bars(bars: &Vec<SessionBar>) -> (r: Vec<HourBar>)
    ensures
        bars_view(r@) == labelled(session_bars_view(bars@)),
{
    let ghost kb = session_bars_view(bars@);
    let mut out: Vec<HourBar> = Vec::new();
    let n = bars.len();
    let mut i: usize = 0;
    while i < n
        invariant
            n == bars@.len(),
            kb == session_bars_view(bars@),
            i <= n,
            bars_view(out@) == labelled(kb.take(i as int)),
        decreases n - i,
    {
        let ghost old_out = out@;
        let b = bars[i];
        assert(kb.take(i + 1).drop_last() =~= kb.take(i as int));
        assert(kb.take(i + 1).last() == b@);
        if let Some(t) = bucket_start_label(&b.date, b.bucket) {
            out.push(HourBar { ts_local: t, o: b.o, h: b.h, l: b.l, c: b.c, v: b.v });
            assert(bars_view(out@) =~= bars_view(old_out).push(out@.last()@));
        }
        i = i + 1;
    }
    assert(kb.take(n as int) =~= kb);
    out
}

/// Resamples minute bars into the hourly bars of the regular New York
/// session (09:30 to 16:00 local time) of the last `window_days` trading
/// days.
pub fn resample_1h_regular_session(ticker: &str, minutes: &[MinuteBar], window_days: i64) -> (r: PriceChart1H)
    requires
        total_volume(minutes@) <= u64::MAX,
    ensures
        is_resampling(ticker@, minutes@, window_days, r),
{
    let readings = exchange_readings_of(minutes);
    proof {
        let xs = paired(minutes@, readings@);
        lemma_paired_volume(minutes@, readings@);
        assert forall|d: LocalDate, k: int| #[trigger] bucket_fold(xs, d, k) is Some implies bucket_fold(xs, d, k)->Some_0.v <= u64::MAX by {
            lemma_fold_volume(xs, d, k);
        }
    }
    let keyed = resample_readings(minutes, &readings, window_days);
    let bars = label_bars(&keyed);
    PriceChart1H { ticker: to_upper(ticker), window_days, bars }
}

} // verus!
