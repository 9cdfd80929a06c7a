use session_bars::exchange_clock::{
    bucket_index, get_bucket_start, is_regular_session, LocalDate, LocalStamp,
};
use session_bars::market::{
    label_bars, resample_1h_regular_session, resample_readings, HourBar, MinuteBar, SessionBar,
};

/// Unix seconds of 2024-01-02 00:00:00 UTC; New York is at UTC-5 then.
const JAN_2_2024: i64 = 1_704_153_600;

/// The instant of New York local time `h:m:s` on 2024-01-02 plus `day` days
/// (all within standard time).
fn ny(day: i64, h: i64, m: i64, s: i64) -> i64 {
    JAN_2_2024 + day * 86_400 + (h + 5) * 3600 + m * 60 + s
}

fn minute(ts_utc: i64, o: i64, h: i64, l: i64, c: i64, v: u64) -> MinuteBar {
    MinuteBar { ts_utc, o, h, l, c, v }
}

fn flat(ts_utc: i64, price: i64, v: u64) -> MinuteBar {
    minute(ts_utc, price, price, price, price, v)
}

/// Every minute of the session of day `day`, each with volume 1.
fn full_day(day: i64) -> Vec<MinuteBar> {
    let mut out = Vec::new();
    for t in 570..960 {
        out.push(flat(ny(day, t / 60, t % 60, 0), 1_000_000 + t, 1));
    }
    out
}

fn labels(bars: &[HourBar]) -> Vec<String> {
    bars.iter().map(|b| b.ts_local.clone()).collect()
}

#[test]
fn open_minute_is_included() {
    let chart = resample_1h_regular_session("aapl", &[flat(ny(0, 9, 30, 0), 5, 7)], 5);
    assert_eq!(chart.bars.len(), 1);
    assert_eq!(chart.bars[0].ts_local, "2024-01-02T09:30:00-05:00");
    assert_eq!(chart.bars[0].v, 7);
}

#[test]
fn second_before_open_is_excluded() {
    let chart = resample_1h_regular_session("aapl", &[flat(ny(0, 9, 29, 59), 5, 7)], 5);
    assert!(chart.bars.is_empty());
}

#[test]
fn close_instant_is_excluded() {
    let chart = resample_1h_regular_session("aapl", &[flat(ny(0, 16, 0, 0), 5, 7)], 5);
    assert!(chart.bars.is_empty());
}

#[test]
fn last_second_of_session_is_included() {
    let chart = resample_1h_regular_session("aapl", &[flat(ny(0, 15, 59, 59), 5, 7)], 5);
    assert_eq!(labels(&chart.bars), vec!["2024-01-02T15:30:00-05:00".to_string()]);
}

#[test]
fn full_session_gives_seven_bars() {
    let chart = resample_1h_regular_session("msft", &full_day(0), 1);
    let expected: Vec<String> = ["09:30", "10:30", "11:30", "12:30", "13:30", "14:30", "15:30"]
        .iter()
        .map(|t| format!("2024-01-02T{}:00-05:00", t))
        .collect();
    assert_eq!(labels(&chart.bars), expected);
    for b in &chart.bars[..6] {
        assert_eq!(b.v, 60);
    }
    assert_eq!(chart.bars[6].v, 30);
}

#[test]
fn tail_bucket_is_its_own_shorter_bar() {
    let ms = vec![
        flat(ny(0, 15, 0, 0), 10, 1),
        flat(ny(0, 15, 29, 0), 11, 2),
        flat(ny(0, 15, 30, 0), 12, 3),
        flat(ny(0, 15, 59, 0), 13, 4),
    ];
    let chart = resample_1h_regular_session("msft", &ms, 1);
    assert_eq!(chart.bars.len(), 2);
    assert_eq!(chart.bars[0].ts_local, "2024-01-02T14:30:00-05:00");
    assert_eq!((chart.bars[0].o, chart.bars[0].c, chart.bars[0].v), (10, 11, 3));
    assert_eq!(chart.bars[1].ts_local, "2024-01-02T15:30:00-05:00");
    assert_eq!((chart.bars[1].o, chart.bars[1].c, chart.bars[1].v), (12, 13, 7));
}

#[test]
fn aggregation_arithmetic() {
    let ms = vec![
        minute(ny(0, 9, 31, 0), 9, 10, 8, 100, 5),
        minute(ny(0, 9, 32, 0), 11, 12, 7, 105, 6),
        minute(ny(0, 9, 33, 0), 10, 9, 11, 98, 7),
    ];
    let chart = resample_1h_regular_session("ibm", &ms, 1);
    assert_eq!(chart.bars.len(), 1);
    let b = &chart.bars[0];
    assert_eq!(b.o, 9);
    assert_eq!(b.h, 12);
    assert_eq!(b.l, 7);
    assert_eq!(b.c, 98);
    assert_eq!(b.v, 18);
}

#[test]
fn close_is_last_folded_not_latest_timestamp() {
    let ms = vec![
        minute(ny(0, 9, 50, 0), 1, 2, 1, 20, 1),
        minute(ny(0, 9, 40, 0), 3, 4, 3, 30, 1),
    ];
    let chart = resample_1h_regular_session("ibm", &ms, 1);
    assert_eq!(chart.bars.len(), 1);
    assert_eq!(chart.bars[0].o, 1);
    assert_eq!(chart.bars[0].c, 30);
}

#[test]
fn window_keeps_latest_trading_days() {
    let mut ms = Vec::new();
    for day in 0..10 {
        ms.push(flat(ny(day, 10, 0, 0), 100 + day, 1));
        // out-of-session minutes on a further date must not count as a trading day
        ms.push(flat(ny(day + 20, 8, 0, 0), 1, 1));
    }
    let chart = resample_1h_regular_session("nvda", &ms, 3);
    assert_eq!(
        labels(&chart.bars),
        vec![
            "2024-01-09T09:30:00-05:00".to_string(),
            "2024-01-10T09:30:00-05:00".to_string(),
            "2024-01-11T09:30:00-05:00".to_string(),
        ]
    );
    assert_eq!(chart.window_days, 3);
}

#[test]
fn window_larger_than_data_keeps_all_days() {
    let ms = vec![flat(ny(1, 10, 0, 0), 1, 1), flat(ny(0, 10, 0, 0), 2, 1)];
    let chart = resample_1h_regular_session("nvda", &ms, 30);
    assert_eq!(
        labels(&chart.bars),
        vec!["2024-01-02T09:30:00-05:00".to_string(), "2024-01-03T09:30:00-05:00".to_string()]
    );
}

#[test]
fn gaps_are_absent_not_filled() {
    let mut ms = Vec::new();
    for m in 30..60 {
        ms.push(flat(ny(0, 9, m, 0), 1, 1));
    }
    for m in 0..15 {
        ms.push(flat(ny(0, 14, m, 0), 2, 1));
    }
    let chart = resample_1h_regular_session("amd", &ms, 1);
    assert_eq!(
        labels(&chart.bars),
        vec!["2024-01-02T09:30:00-05:00".to_string(), "2024-01-02T13:30:00-05:00".to_string()]
    );
    assert_eq!(chart.bars[0].v, 30);
    assert_eq!(chart.bars[1].v, 15);
}

#[test]
fn zero_window_is_empty() {
    let chart = resample_1h_regular_session("amd", &full_day(0), 0);
    assert!(chart.bars.is_empty());
    assert_eq!(chart.window_days, 0);
}

#[test]
fn negative_window_is_empty() {
    let chart = resample_1h_regular_session("amd", &full_day(0), -4);
    assert!(chart.bars.is_empty());
}

#[test]
fn empty_input_gives_empty_chart() {
    let chart = resample_1h_regular_session("amd", &[], 7);
    assert!(chart.bars.is_empty());
}

#[test]
fn repeated_runs_are_identical() {
    let mut ms = full_day(0);
    ms.extend(full_day(1));
    let a = resample_1h_regular_session("tsla", &ms, 2);
    let b = resample_1h_regular_session("tsla", &ms, 2);
    assert_eq!(a.ticker, b.ticker);
    assert_eq!(a.bars.len(), b.bars.len());
    for (x, y) in a.bars.iter().zip(b.bars.iter()) {
        assert_eq!(x.ts_local, y.ts_local);
        assert_eq!((x.o, x.h, x.l, x.c, x.v), (y.o, y.h, y.l, y.c, y.v));
    }
}

#[test]
fn ticker_is_upper_cased() {
    let chart = resample_1h_regular_session("brk.b", &[], 7);
    assert_eq!(chart.ticker, "BRK.B");
}

#[test]
fn days_are_emitted_in_ascending_order() {
    let ms = vec![flat(ny(2, 11, 0, 0), 1, 1), flat(ny(0, 12, 0, 0), 2, 1), flat(ny(1, 10, 0, 0), 3, 1)];
    let chart = resample_1h_regular_session("spy", &ms, 3);
    assert_eq!(
        labels(&chart.bars),
        vec![
            "2024-01-02T11:30:00-05:00".to_string(),
            "2024-01-03T09:30:00-05:00".to_string(),
            "2024-01-04T10:30:00-05:00".to_string(),
        ]
    );
}

#[test]
fn local_date_not_utc_date_groups_days() {
    // 15:45 in New York on 2024-01-02 is 20:45 UTC; 2024-07-01 has UTC-4.
    let summer: i64 = 1_719_792_000 + (10 + 4) * 3600;
    let ms = vec![flat(ny(0, 15, 45, 0), 1, 1), flat(summer, 2, 1)];
    let chart = resample_1h_regular_session("spy", &ms, 5);
    assert_eq!(
        labels(&chart.bars),
        vec!["2024-01-02T15:30:00-05:00".to_string(), "2024-07-01T09:30:00-04:00".to_string()]
    );
}

#[test]
fn session_test_on_clock_readings() {
    let at = |hour: u32, minute: u32, second: u32| LocalStamp {
        date: LocalDate { year: 2024, month: 1, day: 2 },
        hour,
        minute,
        second,
    };
    assert!(is_regular_session(&at(9, 30, 0)));
    assert!(!is_regular_session(&at(9, 29, 59)));
    assert!(is_regular_session(&at(15, 59, 59)));
    assert!(!is_regular_session(&at(16, 0, 0)));
}

#[test]
fn bucket_index_floors_toward_negative_infinity() {
    assert_eq!(bucket_index(9, 30), 0);
    assert_eq!(bucket_index(10, 29), 0);
    assert_eq!(bucket_index(10, 30), 1);
    assert_eq!(bucket_index(15, 59), 6);
    assert_eq!(bucket_index(9, 29), -1);
    assert_eq!(bucket_index(8, 30), -1);
    assert_eq!(bucket_index(8, 29), -2);
}

#[test]
fn bucket_start_of_clock_readings() {
    let at = |hour: u32, minute: u32| LocalStamp {
        date: LocalDate { year: 2024, month: 7, day: 1 },
        hour,
        minute,
        second: 0,
    };
    assert_eq!(get_bucket_start(&at(12, 45)), Some("2024-07-01T12:30:00-04:00".to_string()));
    assert_eq!(get_bucket_start(&at(9, 0)), Some("2024-07-01T08:30:00-04:00".to_string()));
    assert_eq!(get_bucket_start(&at(0, 30)), Some("2024-07-01T00:30:00-04:00".to_string()));
    assert_eq!(get_bucket_start(&at(0, 29)), None);
}

fn reading(day: u32, hour: u32, minute: u32) -> Option<LocalStamp> {
    Some(LocalStamp { date: LocalDate { year: 2024, month: 1, day }, hour, minute, second: 0 })
}

#[test]
fn core_folds_readings_without_time_zone() {
    let ms = vec![
        minute(0, 9, 10, 8, 100, 5),
        minute(0, 11, 12, 7, 105, 6),
        minute(0, 10, 9, 11, 98, 7),
        minute(0, 50, 50, 50, 50, 1),
        minute(0, 60, 60, 60, 60, 1),
    ];
    let rs = vec![reading(2, 9, 31), reading(2, 9, 45), reading(2, 10, 29), reading(2, 16, 0), None];
    let bars = resample_readings(&ms, &rs, 1);
    assert_eq!(
        bars,
        vec![SessionBar {
            date: LocalDate { year: 2024, month: 1, day: 2 },
            bucket: 0,
            o: 9,
            h: 12,
            l: 7,
            c: 98,
            v: 18
        }]
    );
}

#[test]
fn core_keeps_last_days_and_bucket_order() {
    let ms: Vec<MinuteBar> = (0..5).map(|i| flat(0, i, 1)).collect();
    let rs = vec![reading(5, 15, 30), reading(3, 9, 30), reading(5, 9, 30), reading(4, 12, 0), reading(3, 10, 0)];
    let bars = resample_readings(&ms, &rs, 2);
    let keys: Vec<(u32, i64)> = bars.iter().map(|b| (b.date.day, b.bucket)).collect();
    assert_eq!(keys, vec![(4, 2), (5, 0), (5, 6)]);
    assert_eq!(bars[2].o, 0);
}

#[test]
fn labels_render_and_drop_impossible_starts() {
    let d = LocalDate { year: 2024, month: 3, day: 11 };
    let bar = |bucket: i64| SessionBar { date: d, bucket, o: 1, h: 2, l: 0, c: 1, v: 3 };
    let bad = SessionBar { date: LocalDate { year: 2024, month: 2, day: 30 }, ..bar(0) };
    let out = label_bars(&vec![bar(0), bad, bar(6), bar(15)]);
    assert_eq!(labels(&out), vec!["2024-03-11T09:30:00-04:00".to_string(), "2024-03-11T15:30:00-04:00".to_string()]);
    assert_eq!((out[1].o, out[1].h, out[1].l, out[1].c, out[1].v), (1, 2, 0, 1, 3));
}

#[test]
fn core_takes_largest_volume_per_bucket() {
    let ms = vec![flat(0, 1, u64::MAX), flat(0, 2, u64::MAX)];
    let rs = vec![reading(2, 9, 30), reading(2, 10, 30)];
    let bars = resample_readings(&ms, &rs, 1);
    assert_eq!(bars.len(), 2);
    assert_eq!((bars[0].v, bars[1].v), (u64::MAX, u64::MAX));
}
