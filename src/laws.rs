//! What the resampling engine guarantees, stated over its model and proved.

use crate::exchange_clock::{bucket_label, bucket_of, date_lt, valid_reading, LocalDate, LocalStamp};
use crate::text::upper_of;
use crate::market::{
    bars_of_days, bars_view, bucket_fold, chart_bars, day_bars, day_bars_upto, in_bucket,
    insert_day, is_resampling, labelled, last_days, paired_volume, session_chart, session_reading,
    trading_days, lemma_session_bucket, MinuteBar, Ohlcv, PriceChart1H,
};
use vstd::prelude::*;

verus! {

/// The dates of `s` ascend strictly.
pub open spec fn ascending(s: Seq<LocalDate>) -> bool {
    forall|i: int, j: int| 0 <= i < j < s.len() ==> date_lt(#[trigger] s[i], #[trigger] s[j])
}

/// Minute `b` is a session minute of day `x`.
pub open spec fn minute_on_day(b: (MinuteBar, Option<LocalStamp>), x: LocalDate) -> bool {
    session_reading(b.1) matches Some(l) && l.date == x
}

/// Day `x` is a trading day of `ms`: some session minute lies on it.
pub open spec fn is_trading_day(ms: Seq<(MinuteBar, Option<LocalStamp>)>, x: LocalDate) -> bool {
    exists|j: int| 0 <= j < ms.len() && #[trigger] minute_on_day(ms[j], x)
}

/// Two resamplings of the same instrument, minutes and window agree in every
/// field of every bar: the engine is a pure function of its input.
pub proof fn law_resampling_is_deterministic(
    ticker: Seq<char>,
    minutes: Seq<MinuteBar>,
    window_days: i64,
    r1: PriceChart1H,
    r2: PriceChart1H,
)
    requires
        is_resampling(ticker, minutes, window_days, r1),
        is_resampling(ticker, minutes, window_days, r2),
    ensures
        r1.ticker@ == r2.ticker@,
        r1.window_days == r2.window_days,
        bars_view(r1.bars@) == bars_view(r2.bars@),
{
}

/// 09:30 on the exchange's clock belongs to the session and 09:29 does not;
/// 15:59 belongs to it and 16:00 does not. Seconds play no part.
pub proof fn law_session_boundaries(l: LocalStamp)
    ensures
        l.hour == 9 && l.minute == 30 ==> session_reading(Some(l)) == Some(l),
        l.hour == 9 && l.minute == 29 ==> session_reading(Some(l)) is None,
        l.hour == 15 && l.minute == 59 ==> session_reading(Some(l)) == Some(l),
        l.hour == 16 && l.minute == 0 ==> session_reading(Some(l)) is None,
{
}

/// A window of zero or fewer days gives no bars at all.
pub proof fn law_nonpositive_window_is_empty(minutes: Seq<MinuteBar>, xs: Seq<(MinuteBar, Option<LocalStamp>)>, n: int)
    requires
        n <= 0,
    ensures
        session_chart(xs, n).len() == 0,
        chart_bars(minutes, n).len() == 0,
{
    assert(last_days(trading_days(xs), n).len() == 0);
}

proof fn lemma_insert_day(s: Seq<LocalDate>, d: LocalDate)
    requires
        ascending(s),
    ensures
        ascending(insert_day(s, d)),
        forall|x: LocalDate| #[trigger] insert_day(s, d).contains(x) <==> (s.contains(x) || x == d),
    decreases s.len(),
{
    let r = insert_day(s, d);
    if s.len() == 0 {
        assert(r[0] == d);
    } else if date_lt(d, s[0]) {
        assert forall|x: LocalDate| r.contains(x) <==> (s.contains(x) || x == d) by {
            if r.contains(x) {
                let i = choose|i: int| 0 <= i < r.len() && r[i] == x;
                if i > 0 {
                    assert(s[i - 1] == x);
                }
            }
            if s.contains(x) {
                let i = choose|i: int| 0 <= i < s.len() && s[i] == x;
                assert(r[i + 1] == x);
            }
            if x == d {
                assert(r[0] == x);
            }
        }
        assert forall|i: int, j: int| 0 <= i < j < r.len() implies date_lt(#[trigger] r[i], #[trigger] r[j]) by {
            if i == 0 {
                assert(r[j] == s[j - 1]);
                if j > 1 {
                    assert(date_lt(s[0], s[j - 1]));
                }
            } else {
                assert(r[i] == s[i - 1] && r[j] == s[j - 1]);
            }
        }
    } else if d == s[0] {
        assert(s.contains(s[0]));
    } else {
        let t = s.drop_first();
        assert(ascending(t)) by {
            assert forall|i: int, j: int| 0 <= i < j < t.len() implies date_lt(#[trigger] t[i], #[trigger] t[j]) by {
                assert(t[i] == s[i + 1] && t[j] == s[j + 1]);
            }
        }
        lemma_insert_day(t, d);
        let u = insert_day(t, d);
        assert(r == seq![s[0]] + u);
        assert forall|x: LocalDate| r.contains(x) <==> (s.contains(x) || x == d) by {
            if r.contains(x) {
                let i = choose|i: int| 0 <= i < r.len() && r[i] == x;
                if i > 0 {
                    assert(u[i - 1] == x);
                    assert(u.contains(x));
                    if t.contains(x) {
                        let k = choose|k: int| 0 <= k < t.len() && t[k] == x;
                        assert(s[k + 1] == x);
                    }
                } else {
                    assert(s[0] == x);
                }
            }
            if s.contains(x) {
                let i = choose|i: int| 0 <= i < s.len() && s[i] == x;
                if i > 0 {
                    assert(t[i - 1] == x);
                    assert(t.contains(x));
                    assert(u.contains(x));
                    let k = choose|k: int| 0 <= k < u.len() && u[k] == x;
                    assert(r[k + 1] == x);
                } else {
                    assert(r[0] == x);
                }
            }
            if x == d {
                assert(u.contains(d));
                let k = choose|k: int| 0 <= k < u.len() && u[k] == d;
                assert(r[k + 1] == d);
            }
        }
        assert forall|i: int, j: int| 0 <= i < j < r.len() implies date_lt(#[trigger] r[i], #[trigger] r[j]) by {
            if i == 0 {
                assert(r[j] == u[j - 1]);
                assert(u.contains(u[j - 1]));
                if u[j - 1] != d {
                    assert(t.contains(u[j - 1]));
                    let k = choose|k: int| 0 <= k < t.len() && t[k] == u[j - 1];
                    assert(s[k + 1] == u[j - 1]);
                }
            } else {
                assert(r[i] == u[i - 1] && r[j] == u[j - 1]);
            }
        }
    }
}

/// The trading-day list ascends strictly and holds exactly the dates that
/// carry a session minute.
pub proof fn law_trading_days(ms: Seq<(MinuteBar, Option<LocalStamp>)>)
    ensures
        ascending(trading_days(ms)),
        forall|x: LocalDate| #[trigger] trading_days(ms).contains(x) <==> is_trading_day(ms, x),
    decreases ms.len(),
{
    if ms.len() > 0 {
        let p = ms.drop_last();
        law_trading_days(p);
        let b = ms.last();
        match session_reading(b.1) {
            Some(l) => {
                lemma_insert_day(trading_days(p), l.date);
            },
            None => {},
        }
        assert forall|x: LocalDate| trading_days(ms).contains(x) <==> is_trading_day(ms, x) by {
            if is_trading_day(p, x) {
                let j = choose|j: int| 0 <= j < p.len() && #[trigger] minute_on_day(p[j], x);
                assert(ms[j] == p[j]);
            }
            if is_trading_day(ms, x) {
                let j = choose|j: int| 0 <= j < ms.len() && #[trigger] minute_on_day(ms[j], x);
                if j < p.len() {
                    assert(p[j] == ms[j]);
                }
            }
            if session_reading(b.1) matches Some(l) && l.date == x {
                assert(minute_on_day(ms[ms.len() - 1], x));
            }
        }
    }
}

/// The window keeps the `min(n, D)` chronologically latest of the `D` trading
/// days (none where `n <= 0`), in ascending order; every trading day it drops
/// is earlier than every day it keeps, and the chart holds the bars of the
/// kept days alone.
pub proof fn law_window_keeps_latest_days(ms: Seq<(MinuteBar, Option<LocalStamp>)>, n: int)
    ensures
        ({
            let days = trading_days(ms);
            let kept = last_days(days, n);
            &&& kept.len() == if n <= 0 {
                0
            } else if days.len() < n {
                days.len() as int
            } else {
                n
            }
            &&& ascending(kept)
            &&& forall|x: LocalDate| kept.contains(x) ==> is_trading_day(ms, x)
            &&& forall|x: LocalDate, y: LocalDate|
                is_trading_day(ms, x) && !kept.contains(x) && kept.contains(y) ==> date_lt(x, y)
        }),
        session_chart(ms, n) == bars_of_days(ms, last_days(trading_days(ms), n)),
{
    law_trading_days(ms);
    let days = trading_days(ms);
    let kept = last_days(days, n);
    let start: int = if n <= 0 {
        days.len() as int
    } else if days.len() > n {
        days.len() - n
    } else {
        0
    };
    assert(kept =~= days.subrange(start, days.len() as int));
    assert forall|x: LocalDate| kept.contains(x) implies is_trading_day(ms, x) by {
        let i = choose|i: int| 0 <= i < kept.len() && kept[i] == x;
        assert(days[start + i] == x);
        assert(days.contains(x));
    }
    assert forall|x: LocalDate, y: LocalDate|
        is_trading_day(ms, x) && !kept.contains(x) && kept.contains(y) implies date_lt(x, y) by {
        assert(days.contains(x));
        let i = choose|i: int| 0 <= i < days.len() && days[i] == x;
        let k = choose|k: int| 0 <= k < kept.len() && kept[k] == y;
        if i >= start {
            assert(kept[i - start] == x);
        }
        assert(days[start + k] == y);
    }
    assert forall|i: int, j: int| 0 <= i < j < kept.len() implies date_lt(#[trigger] kept[i], #[trigger] kept[j]) by {
        assert(kept[i] == days[start + i] && kept[j] == days[start + j]);
    }
}

/// Some minute of `ms` falls in bucket `k` of day `d`.
pub open spec fn bucket_has_minutes(ms: Seq<(MinuteBar, Option<LocalStamp>)>, d: LocalDate, k: int) -> bool {
    exists|j: int| 0 <= j < ms.len() && #[trigger] in_bucket(ms[j], d, k)
}

/// Number of buckets among `0 .. k` of day `d` that received minutes.
pub open spec fn occupied_buckets(ms: Seq<(MinuteBar, Option<LocalStamp>)>, d: LocalDate, k: int) -> int
    decreases k,
{
    if k <= 0 {
        0
    } else {
        occupied_buckets(ms, d, k - 1) + if bucket_has_minutes(ms, d, k - 1) {
            1int
        } else {
            0int
        }
    }
}

/// A bucket folds to a bar exactly when some minute falls in it.
pub proof fn law_fold_present_iff_minutes(ms: Seq<(MinuteBar, Option<LocalStamp>)>, d: LocalDate, k: int)
    ensures
        bucket_fold(ms, d, k) is Some <==> bucket_has_minutes(ms, d, k),
    decreases ms.len(),
{
    if ms.len() > 0 {
        let p = ms.drop_last();
        law_fold_present_iff_minutes(p, d, k);
        if bucket_has_minutes(p, d, k) {
            let j = choose|j: int| 0 <= j < p.len() && #[trigger] in_bucket(p[j], d, k);
            assert(in_bucket(ms[j], d, k));
        }
        if bucket_has_minutes(ms, d, k) {
            let j = choose|j: int| 0 <= j < ms.len() && #[trigger] in_bucket(ms[j], d, k);
            if j < p.len() {
                assert(in_bucket(p[j], d, k));
            }
        }
    }
}

/// Bar `e` of day `d` is the fold of one of its buckets `0 .. k` that
/// received minutes.
pub open spec fn bar_of_occupied_bucket(ms: Seq<(MinuteBar, Option<LocalStamp>)>, d: LocalDate, k: int, e: (LocalDate, int, Ohlcv)) -> bool {
    &&& e.0 == d
    &&& 0 <= e.1 < k
    &&& bucket_has_minutes(ms, d, e.1)
    &&& bucket_fold(ms, d, e.1) == Some(e.2)
}

proof fn lemma_day_bars_upto(ms: Seq<(MinuteBar, Option<LocalStamp>)>, d: LocalDate, k: int)
    requires
        0 <= k,
    ensures
        day_bars_upto(ms, d, k).len() == occupied_buckets(ms, d, k),
        forall|i: int| 0 <= i < day_bars_upto(ms, d, k).len() ==> bar_of_occupied_bucket(ms, d, k, #[trigger] day_bars_upto(ms, d, k)[i]),
        forall|i: int, j: int| 0 <= i < j < day_bars_upto(ms, d, k).len() ==> #[trigger] day_bars_upto(ms, d, k)[i].1 < #[trigger] day_bars_upto(ms, d, k)[j].1,
    decreases k,
{
    if k > 0 {
        lemma_day_bars_upto(ms, d, k - 1);
        law_fold_present_iff_minutes(ms, d, k - 1);
        let prev = day_bars_upto(ms, d, k - 1);
        let cur = day_bars_upto(ms, d, k);
        assert forall|i: int| 0 <= i < cur.len() implies bar_of_occupied_bucket(ms, d, k, #[trigger] cur[i]) by {
            if i < prev.len() {
                assert(cur[i] == prev[i]);
                assert(bar_of_occupied_bucket(ms, d, k - 1, prev[i]));
            }
        }
        assert forall|i: int, j: int| 0 <= i < j < cur.len() implies #[trigger] cur[i].1 < #[trigger] cur[j].1 by {
            assert(cur[i] == prev[i]);
            assert(bar_of_occupied_bucket(ms, d, k - 1, prev[i]));
            if j < prev.len() {
                assert(cur[j] == prev[j]);
            }
        }
    }
}

/// A day has one bar for each of its buckets that received minutes, in
/// bucket order, and none for an empty bucket: each bar is the fold of such
/// a bucket.
pub proof fn law_bars_only_for_occupied_buckets(ms: Seq<(MinuteBar, Option<LocalStamp>)>, d: LocalDate)
    ensures
        day_bars(ms, d).len() == occupied_buckets(ms, d, 7),
        forall|i: int| 0 <= i < day_bars(ms, d).len() ==> bar_of_occupied_bucket(ms, d, 7, #[trigger] day_bars(ms, d)[i]),
        forall|i: int, j: int| 0 <= i < j < day_bars(ms, d).len() ==> #[trigger] day_bars(ms, d)[i].1 < #[trigger] day_bars(ms, d)[j].1,
{
    lemma_day_bars_upto(ms, d, 7);
}

/// Minute `b` is a session minute of day `d` at `t` minutes after midnight.
pub open spec fn minute_at(b: (MinuteBar, Option<LocalStamp>), d: LocalDate, t: int) -> bool {
    session_reading(b.1) matches Some(l) && l.date == d && l.hour * 60 + l.minute == t
}

/// Some session minute of `ms` on day `d` lies `t` minutes after midnight.
pub open spec fn minute_covered(ms: Seq<(MinuteBar, Option<LocalStamp>)>, d: LocalDate, t: int) -> bool {
    exists|j: int| 0 <= j < ms.len() && #[trigger] minute_at(ms[j], d, t)
}

proof fn lemma_all_occupied(ms: Seq<(MinuteBar, Option<LocalStamp>)>, d: LocalDate, k: int)
    requires
        0 <= k <= 7,
        forall|x: int| 0 <= x < 7 ==> #[trigger] bucket_has_minutes(ms, d, x),
    ensures
        occupied_buckets(ms, d, k) == k,
    decreases k,
{
    if k > 0 {
        lemma_all_occupied(ms, d, k - 1);
        assert(bucket_has_minutes(ms, d, k - 1));
    }
}

/// A day with a session minute at every minute from 09:30 to 15:59 has
/// exactly seven bars: six full hours and the half-hour tail.
pub proof fn law_full_session_day_has_seven_bars(ms: Seq<(MinuteBar, Option<LocalStamp>)>, d: LocalDate)
    requires
        forall|t: int| 570 <= t < 960 ==> #[trigger] minute_covered(ms, d, t),
    ensures
        day_bars(ms, d).len() == 7,
{
    assert forall|x: int| 0 <= x < 7 implies #[trigger] bucket_has_minutes(ms, d, x) by {
        let t = 570 + 60 * x;
        assert(minute_covered(ms, d, t));
        let j = choose|j: int| 0 <= j < ms.len() && #[trigger] minute_at(ms[j], d, t);
        assert(in_bucket(ms[j], d, x));
    }
    lemma_all_occupied(ms, d, 7);
    law_bars_only_for_occupied_buckets(ms, d);
}

/// The minutes of day `d` in bucket `k`, in arrival order.
pub open spec fn bucket_members(ms: Seq<(MinuteBar, Option<LocalStamp>)>, d: LocalDate, k: int) -> Seq<(MinuteBar, Option<LocalStamp>)> {
    ms.filter(|b: (MinuteBar, Option<LocalStamp>)| in_bucket(b, d, k))
}

/// `a` is the bar of the minutes `m`: the first one's open, the greatest
/// high, the least low, the last one's close and the sum of the volumes.
pub open spec fn summarises(a: Ohlcv, m: Seq<(MinuteBar, Option<LocalStamp>)>) -> bool {
    &&& m.len() > 0
    &&& a.o == m[0].0.o
    &&& a.c == m.last().0.c
    &&& a.v == paired_volume(m)
    &&& forall|i: int| 0 <= i < m.len() ==> #[trigger] m[i].0.h <= a.h
    &&& exists|i: int| 0 <= i < m.len() && #[trigger] m[i].0.h == a.h
    &&& forall|i: int| 0 <= i < m.len() ==> a.l <= #[trigger] m[i].0.l
    &&& exists|i: int| 0 <= i < m.len() && #[trigger] m[i].0.l == a.l
}

/// A bucket's bar is made of exactly the minutes that fall in it, in
/// arrival order: open of the first, close of the last (not of the latest
/// timestamp), the extreme high and low, and the total volume; a bucket
/// without minutes has no bar.
pub proof fn law_bucket_aggregation(ms: Seq<(MinuteBar, Option<LocalStamp>)>, d: LocalDate, k: int)
    ensures
        bucket_fold(ms, d, k) is None <==> bucket_members(ms, d, k).len() == 0,
        bucket_fold(ms, d, k) matches Some(a) ==> summarises(a, bucket_members(ms, d, k)),
    decreases ms.len(),
{
    reveal_with_fuel(Seq::filter, 2);
    if ms.len() > 0 {
        let p = ms.drop_last();
        let b = ms.last();
        law_bucket_aggregation(p, d, k);
        let mp = bucket_members(p, d, k);
        let m = bucket_members(ms, d, k);
        if in_bucket(b, d, k) {
            assert(m == mp.push(b));
            assert(m.drop_last() =~= mp);
            let a = bucket_fold(ms, d, k)->Some_0;
            match bucket_fold(p, d, k) {
                None => {
                    assert(mp.len() == 0);
                    assert(m[0] == b);
                    assert(mp =~= Seq::<(MinuteBar, Option<LocalStamp>)>::empty());
                    assert(paired_volume(m) == paired_volume(mp) + b.0.v);
                    assert(m[0].0.h == a.h && m[0].0.l == a.l);
                },
                Some(q) => {
                    assert(m[0] == mp[0]);
                    assert forall|i: int| 0 <= i < m.len() implies #[trigger] m[i].0.h <= a.h && a.l <= m[i].0.l by {
                        if i < mp.len() {
                            assert(m[i] == mp[i]);
                            assert(mp[i].0.h <= q.h && q.l <= mp[i].0.l);
                        }
                    }
                    if b.0.h > q.h {
                        assert(m[m.len() - 1].0.h == a.h);
                    } else {
                        let i = choose|i: int| 0 <= i < mp.len() && #[trigger] mp[i].0.h == q.h;
                        assert(m[i].0.h == a.h);
                    }
                    if b.0.l < q.l {
                        assert(m[m.len() - 1].0.l == a.l);
                    } else {
                        let i = choose|i: int| 0 <= i < mp.len() && #[trigger] mp[i].0.l == q.l;
                        assert(m[i].0.l == a.l);
                    }
                },
            }
        } else {
            assert(m == mp);
        }
    } else {
        assert(bucket_members(ms, d, k).len() == 0);
    }
}

/// Rendering the starts keeps the bars in order and drops only those whose
/// start the zone cannot resolve: where every start resolves, each bar
/// keeps its fields under its rendered start.
pub proof fn law_labels_keep_resolvable_bars(kb: Seq<(LocalDate, int, Ohlcv)>)
    ensures
        labelled(kb).len() <= kb.len(),
        (forall|i: int| 0 <= i < kb.len() ==> (#[trigger] bucket_label(kb[i].0, kb[i].1)) is Some) ==> {
            &&& labelled(kb).len() == kb.len()
            &&& forall|i: int| 0 <= i < kb.len() ==> #[trigger] labelled(kb)[i] == (
                bucket_label(kb[i].0, kb[i].1)->Some_0,
                kb[i].2,
            )
        },
    decreases kb.len(),
{
    if kb.len() > 0 {
        let p = kb.drop_last();
        law_labels_keep_resolvable_bars(p);
        if forall|i: int| 0 <= i < kb.len() ==> (#[trigger] bucket_label(kb[i].0, kb[i].1)) is Some {
            assert forall|i: int| 0 <= i < p.len() implies (#[trigger] bucket_label(p[i].0, p[i].1)) is Some by {
                assert(p[i] == kb[i]);
                assert(bucket_label(kb[i].0, kb[i].1) is Some);
            }
            assert(bucket_label(kb[kb.len() - 1].0, kb[kb.len() - 1].1) is Some);
            assert forall|i: int| 0 <= i < kb.len() implies #[trigger] labelled(kb)[i] == (
                bucket_label(kb[i].0, kb[i].1)->Some_0,
                kb[i].2,
            ) by {
                if i < p.len() {
                    assert(p[i] == kb[i]);
                    assert(labelled(p)[i] == (bucket_label(p[i].0, p[i].1)->Some_0, p[i].2));
                }
            }
        }
    }
}

/// Bar key order: by trading day, then by bucket within a day.
pub open spec fn key_lt(a: (LocalDate, int, Ohlcv), b: (LocalDate, int, Ohlcv)) -> bool {
    date_lt(a.0, b.0) || (a.0 == b.0 && a.1 < b.1)
}

proof fn lemma_bars_of_days_ordered(ms: Seq<(MinuteBar, Option<LocalStamp>)>, days: Seq<LocalDate>)
    requires
        ascending(days),
    ensures
        forall|i: int, j: int| 0 <= i < j < bars_of_days(ms, days).len() ==> key_lt(
            #[trigger] bars_of_days(ms, days)[i],
            #[trigger] bars_of_days(ms, days)[j],
        ),
        forall|i: int| 0 <= i < bars_of_days(ms, days).len() ==> days.contains(
            #[trigger] bars_of_days(ms, days)[i].0,
        ),
    decreases days.len(),
{
    if days.len() > 0 {
        let p = days.drop_last();
        let d = days.last();
        assert(ascending(p)) by {
            assert forall|i: int, j: int| 0 <= i < j < p.len() implies date_lt(#[trigger] p[i], #[trigger] p[j]) by {
                assert(p[i] == days[i] && p[j] == days[j]);
            }
        }
        lemma_bars_of_days_ordered(ms, p);
        lemma_day_bars_upto(ms, d, 7);
        let front = bars_of_days(ms, p);
        let back = day_bars(ms, d);
        let all = bars_of_days(ms, days);
        assert(all == front + back);
        assert forall|i: int| 0 <= i < all.len() implies days.contains(#[trigger] all[i].0) by {
            if i < front.len() {
                assert(all[i] == front[i]);
                let k = choose|k: int| 0 <= k < p.len() && p[k] == front[i].0;
                assert(days[k] == p[k]);
            } else {
                assert(all[i] == back[i - front.len()]);
                assert(bar_of_occupied_bucket(ms, d, 7, back[i - front.len()]));
                assert(days[days.len() - 1] == d);
            }
        }
        assert forall|i: int, j: int| 0 <= i < j < all.len() implies key_lt(#[trigger] all[i], #[trigger] all[j]) by {
            if j < front.len() {
                assert(all[i] == front[i] && all[j] == front[j]);
            } else if i >= front.len() {
                assert(all[i] == back[i - front.len()] && all[j] == back[j - front.len()]);
                assert(bar_of_occupied_bucket(ms, d, 7, back[i - front.len()]));
                assert(bar_of_occupied_bucket(ms, d, 7, back[j - front.len()]));
            } else {
                assert(all[i] == front[i] && all[j] == back[j - front.len()]);
                assert(bar_of_occupied_bucket(ms, d, 7, back[j - front.len()]));
                assert(p.contains(front[i].0));
                let k = choose|k: int| 0 <= k < p.len() && p[k] == front[i].0;
                assert(days[k] == p[k]);
                assert(date_lt(days[k], days[days.len() - 1]));
            }
        }
    }
}

/// The bars of a chart ascend strictly by trading day and, within a day,
/// by bucket: no bucket appears twice and days never interleave.
pub proof fn law_session_chart_is_ordered(ms: Seq<(MinuteBar, Option<LocalStamp>)>, n: int)
    ensures
        forall|i: int, j: int| 0 <= i < j < session_chart(ms, n).len() ==> key_lt(
            #[trigger] session_chart(ms, n)[i],
            #[trigger] session_chart(ms, n)[j],
        ),
{
    law_window_keeps_latest_days(ms, n);
    lemma_bars_of_days_ordered(ms, last_days(trading_days(ms), n));
}

/// A resampling asked for a window of zero or fewer days has no bars, and
/// still records the window and the upper-cased instrument.
pub proof fn law_nonpositive_window_chart(ticker: Seq<char>, minutes: Seq<MinuteBar>, window_days: i64, r: PriceChart1H)
    requires
        window_days <= 0,
        is_resampling(ticker, minutes, window_days, r),
    ensures
        r.bars@.len() == 0,
        r.window_days == window_days,
        r.ticker@ == upper_of(ticker),
{
    law_nonpositive_window_is_empty(minutes, Seq::empty(), window_days as int);
    assert(bars_view(r.bars@).len() == r.bars@.len());
}

/// Every reading of `ms` is one a clock can show.
pub open spec fn readings_valid(ms: Seq<(MinuteBar, Option<LocalStamp>)>) -> bool {
    forall|j: int| 0 <= j < ms.len() ==> ((#[trigger] ms[j]).1 matches Some(l) ==> valid_reading(l))
}

/// Some bar of `bars` lies on day `d`.
pub open spec fn has_bar_on(bars: Seq<(LocalDate, int, Ohlcv)>, d: LocalDate) -> bool {
    exists|i: int| 0 <= i < bars.len() && (#[trigger] bars[i]).0 == d
}

proof fn lemma_occupied_positive(ms: Seq<(MinuteBar, Option<LocalStamp>)>, d: LocalDate, n: int, k: int)
    requires
        0 <= k < n,
        bucket_has_minutes(ms, d, k),
    ensures
        occupied_buckets(ms, d, n) >= 1,
    decreases n,
{
    if k < n - 1 {
        lemma_occupied_positive(ms, d, n - 1, k);
    }
    lemma_occupied_nonneg(ms, d, n - 1);
}

proof fn lemma_occupied_nonneg(ms: Seq<(MinuteBar, Option<LocalStamp>)>, d: LocalDate, n: int)
    ensures
        occupied_buckets(ms, d, n) >= 0,
    decreases n,
{
    if n > 0 {
        lemma_occupied_nonneg(ms, d, n - 1);
    }
}

proof fn lemma_trading_day_has_bar(ms: Seq<(MinuteBar, Option<LocalStamp>)>, d: LocalDate)
    requires
        readings_valid(ms),
        is_trading_day(ms, d),
    ensures
        has_bar_on(day_bars(ms, d), d),
{
    let j = choose|j: int| 0 <= j < ms.len() && #[trigger] minute_on_day(ms[j], d);
    let l = session_reading(ms[j].1)->Some_0;
    assert(valid_reading(l));
    lemma_session_bucket(l.hour as int, l.minute as int);
    let k = bucket_of(l.hour as int, l.minute as int);
    assert(in_bucket(ms[j], d, k));
    lemma_occupied_positive(ms, d, 7, k);
    lemma_day_bars_upto(ms, d, 7);
    assert(bar_of_occupied_bucket(ms, d, 7, day_bars(ms, d)[0]));
}

proof fn lemma_bars_of_days_include(ms: Seq<(MinuteBar, Option<LocalStamp>)>, days: Seq<LocalDate>, p: int)
    requires
        0 <= p < days.len(),
        has_bar_on(day_bars(ms, days[p]), days[p]),
    ensures
        has_bar_on(bars_of_days(ms, days), days[p]),
    decreases days.len(),
{
    let front = bars_of_days(ms, days.drop_last());
    let back = day_bars(ms, days.last());
    let all = bars_of_days(ms, days);
    assert(all == front + back);
    if p == days.len() - 1 {
        let i = choose|i: int| 0 <= i < back.len() && (#[trigger] back[i]).0 == days[p];
        assert(all[front.len() + i] == back[i]);
    } else {
        assert(days.drop_last()[p] == days[p]);
        lemma_bars_of_days_include(ms, days.drop_last(), p);
        let i = choose|i: int| 0 <= i < front.len() && (#[trigger] front[i]).0 == days[p];
        assert(all[i] == front[i]);
    }
}

/// The days on which a chart has bars are exactly the kept trading days:
/// each of the latest `min(n, D)` trading days has at least one bar, and no
/// other day has any.
pub proof fn law_chart_days_are_kept_days(ms: Seq<(MinuteBar, Option<LocalStamp>)>, n: int)
    requires
        readings_valid(ms),
    ensures
        forall|d: LocalDate| #![trigger has_bar_on(session_chart(ms, n), d)] #![trigger last_days(trading_days(ms), n).contains(d)]
            has_bar_on(session_chart(ms, n), d) <==> last_days(trading_days(ms), n).contains(d),
{
    law_window_keeps_latest_days(ms, n);
    let kept = last_days(trading_days(ms), n);
    lemma_bars_of_days_ordered(ms, kept);
    let sc = session_chart(ms, n);
    assert forall|d: LocalDate| has_bar_on(sc, d) <==> kept.contains(d) by {
        if has_bar_on(sc, d) {
            let i = choose|i: int| 0 <= i < sc.len() && (#[trigger] sc[i]).0 == d;
            assert(kept.contains(sc[i].0));
        }
        if kept.contains(d) {
            let p = choose|p: int| 0 <= p < kept.len() && kept[p] == d;
            lemma_trading_day_has_bar(ms, d);
            lemma_bars_of_days_include(ms, kept, p);
        }
    }
}

} // verus!
