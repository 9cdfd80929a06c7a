use session_bars::chart_columns::{minutes_from_columns, ChartColumns, ColumnsError};
use session_bars::collectors::{
    FeedEntry, FeedField, FeedState, GoogleNewsCollector, RawInsiderTx, RawOwner, YahooInsiderCollector, YahooSnapshotCollector,
};
use session_bars::exchange_clock::LocalDate;

const LONG: &str = "This paragraph is comfortably longer than fifty bytes of text in total.";

#[test]
fn usable_scrape_is_kept() {
    assert_eq!(GoogleNewsCollector::article_snippet(LONG, "sum"), LONG);
}

#[test]
fn short_scrape_falls_back_to_summary() {
    assert_eq!(GoogleNewsCollector::article_snippet("too short", "the summary"), "(Summary): the summary");
}

#[test]
fn blocked_scrape_without_summary_gives_notice() {
    let blocked = format!("{} JavaScript is disabled in your browser.", LONG);
    assert_eq!(GoogleNewsCollector::article_snippet(&blocked, ""), "Content unavailable.");
}

#[test]
fn empty_source_is_google_news() {
    assert_eq!(GoogleNewsCollector::source_label(String::new()), "Google News");
    assert_eq!(GoogleNewsCollector::source_label("Reuters".to_string()), "Reuters");
}

#[test]
fn news_item_fields() {
    let item = GoogleNewsCollector::news_item(
        "Mon, 01 Jan 2024".to_string(),
        "Headline".to_string(),
        String::new(),
        "",
        "brief",
    );
    assert_eq!(item.datetime, "Mon, 01 Jan 2024");
    assert_eq!(item.headline, "Headline");
    assert_eq!(item.source, "Google News");
    assert_eq!(item.content_snippet, "(Summary): brief");
}

#[test]
fn search_links_are_recognised() {
    assert!(GoogleNewsCollector::is_search_link("https://www.google.com/search?q=x"));
    assert!(!GoogleNewsCollector::is_search_link("https://example.com/article"));
}

#[test]
fn paragraphs_are_trimmed_and_filtered() {
    let padded = format!("  \n{}\t ", LONG);
    assert_eq!(GoogleNewsCollector::clean_paragraph(&padded), Some(LONG.to_string()));
    assert_eq!(GoogleNewsCollector::clean_paragraph("   short   "), None);
    let cookie = format!("{} We use COOKIES here.", LONG);
    assert_eq!(GoogleNewsCollector::clean_paragraph(&cookie), None);
    let promo = format!("{} Promo code inside.", LONG);
    assert_eq!(GoogleNewsCollector::clean_paragraph(&promo), None);
}

fn strings(v: &[&str]) -> Vec<String> {
    v.iter().map(|s| s.to_string()).collect()
}

#[test]
fn article_body_takes_two_distinct_and_last() {
    assert_eq!(GoogleNewsCollector::article_body(&strings(&["a", "a", "b", "c"])), "a\n\nb\n\nc");
    assert_eq!(GoogleNewsCollector::article_body(&strings(&["a", "b", "a"])), "a\n\nb\n\n");
    assert_eq!(GoogleNewsCollector::article_body(&strings(&["a", "b", "c", "b"])), "a\n\nb\n\n");
    assert_eq!(GoogleNewsCollector::article_body(&strings(&["a"])), "a\n\n");
    assert_eq!(GoogleNewsCollector::article_body(&strings(&["a", "a"])), "a\n\n");
    assert_eq!(GoogleNewsCollector::article_body(&strings(&[])), "");
}

fn tx(date: Option<&str>) -> RawInsiderTx {
    RawInsiderTx {
        filer_name: None,
        filer_relation: Some("Director".to_string()),
        transaction_text: None,
        start_date: date.map(|d| d.to_string()),
        value_fmt: None,
    }
}

const CUTOFF: LocalDate = LocalDate { year: 2024, month: 3, day: 10 };

#[test]
fn insider_event_on_cutoff_is_reported_with_defaults() {
    let e = YahooInsiderCollector::insider_event(&tx(Some("2024-03-10")), &CUTOFF).unwrap();
    assert_eq!(e.date, "2024-03-10");
    assert_eq!(e.entity_name, "Unknown");
    assert_eq!(e.relation, "Director");
    assert_eq!(e.transaction_type, "Trade");
    assert_eq!(e.value_approx, "0");
}

#[test]
fn insider_events_before_cutoff_or_undated_are_dropped() {
    assert!(YahooInsiderCollector::insider_event(&tx(Some("2024-03-09")), &CUTOFF).is_none());
    assert!(YahooInsiderCollector::insider_event(&tx(Some("2023-12-31")), &CUTOFF).is_none());
    assert!(YahooInsiderCollector::insider_event(&tx(Some("")), &CUTOFF).is_none());
    assert!(YahooInsiderCollector::insider_event(&tx(Some("March 11")), &CUTOFF).is_none());
    assert!(YahooInsiderCollector::insider_event(&tx(None), &CUTOFF).is_none());
}

#[test]
fn insider_events_keep_order() {
    let txs = vec![tx(Some("2024-04-01")), tx(Some("2024-01-01")), tx(Some("2024-03-11"))];
    let events = YahooInsiderCollector::insider_events(&txs, &CUTOFF);
    let dates: Vec<&str> = events.iter().map(|e| e.date.as_str()).collect();
    assert_eq!(dates, vec!["2024-04-01", "2024-03-11"]);
}

fn owner(name: Option<&str>) -> RawOwner {
    RawOwner { organization: name.map(|n| n.to_string()), pct_held_fmt: None }
}

#[test]
fn holders_take_five_institutions_then_funds() {
    let inst: Vec<RawOwner> = (0..7).map(|i| owner(if i == 2 { None } else { Some("Inst") })).collect();
    let funds = vec![owner(None), owner(Some("Fund A"))];
    let hs = YahooInsiderCollector::holders(&inst, &funds);
    assert_eq!(hs.len(), 7);
    assert_eq!(hs[2].holder_name, "Unknown");
    assert_eq!(hs[4].holder_name, "Inst");
    assert_eq!(hs[5].holder_name, "Unknown Fund");
    assert_eq!(hs[6].holder_name, "Fund A");
    assert!(hs.iter().all(|h| h.pct_held == "0%"));
}

#[test]
fn snapshot_notes_line() {
    assert_eq!(YahooSnapshotCollector::notes(&Some("USD".to_string()), "AAPL"), "Currency: USD, Symbol: AAPL");
    assert_eq!(YahooSnapshotCollector::notes(&None, "AAPL"), "Currency: , Symbol: AAPL");
    assert_eq!(YahooSnapshotCollector::source_name(), "YahooChartMeta");
}

#[test]
fn columns_skip_rows_with_missing_values() {
    let c = ChartColumns {
        timestamps: vec![1_704_205_800, 1_704_205_860, 1_704_205_920],
        open: vec![Some(1), None, Some(3)],
        high: vec![Some(2), Some(2), Some(4)],
        low: vec![Some(1), Some(1), Some(2)],
        close: vec![Some(2), Some(2), Some(3)],
        volume: vec![Some(10), Some(20)],
    };
    let ms = minutes_from_columns(&c).unwrap();
    assert_eq!(ms.len(), 1);
    assert_eq!((ms[0].ts_utc, ms[0].o, ms[0].h, ms[0].l, ms[0].c, ms[0].v), (1_704_205_800, 1, 2, 1, 2, 10));
}

#[test]
fn columns_reject_unrepresentable_timestamp() {
    let c = ChartColumns {
        timestamps: vec![1_704_205_800, i64::MAX],
        open: vec![Some(1), Some(1)],
        high: vec![Some(1), Some(1)],
        low: vec![Some(1), Some(1)],
        close: vec![Some(1), Some(1)],
        volume: vec![Some(1), Some(1)],
    };
    assert_eq!(minutes_from_columns(&c).unwrap_err(), ColumnsError::InvalidTimestamp(1));
}

fn tag(s: &str) -> String {
    s.to_string()
}

#[test]
fn feed_fields_are_read_only_inside_items() {
    let mut st = FeedState::new();
    assert_eq!(st.start_element(&tag("title")), None);
    assert_eq!(st.start_element(&tag("item")), None);
    assert!(st.in_item);
    assert_eq!(st.start_element(&tag("title")), Some(FeedField::Title));
    assert_eq!(st.start_element(&tag("pubDate")), Some(FeedField::PubDate));
    assert_eq!(st.start_element(&tag("guid")), None);
}

#[test]
fn feed_item_with_link_is_handed_out_and_cleared() {
    let mut st = FeedState::new();
    st.start_element(&tag("item"));
    st.set_field(FeedField::Title, "T".to_string());
    st.set_field(FeedField::Link, "https://x".to_string());
    st.set_field(FeedField::Description, "&lt;b&gt;d&lt;/b&gt;".to_string());
    assert!(st.end_element(&tag("title")).is_none());
    let e = st.end_element(&tag("item")).unwrap();
    assert_eq!((e.title.as_str(), e.link.as_str(), e.date.as_str()), ("T", "https://x", ""));
    assert_eq!(e.description, "&lt;b&gt;d&lt;/b&gt;");
    assert!(!st.in_item);
    assert!(st.current.title.is_empty() && st.current.link.is_empty());
}

#[test]
fn feed_item_without_link_is_dropped() {
    let mut st = FeedState::new();
    st.start_element(&tag("item"));
    st.set_field(FeedField::Title, "T".to_string());
    assert!(st.end_element(&tag("item")).is_none());
    assert!(st.current.title.is_empty());
}

fn entry(link: &str) -> FeedEntry {
    FeedEntry {
        date: String::new(),
        title: String::new(),
        source: String::new(),
        link: link.to_string(),
        description: String::new(),
    }
}

#[test]
fn only_first_five_entries_are_fetched() {
    let links = ["a", "b", "c", "d", "e", "f", "g"];
    let kept = GoogleNewsCollector::entries_to_fetch(links.iter().map(|l| entry(l)).collect());
    let got: Vec<&str> = kept.iter().map(|e| e.link.as_str()).collect();
    assert_eq!(got, vec!["a", "b", "c", "d", "e"]);
    assert_eq!(GoogleNewsCollector::entries_to_fetch(vec![entry("x")]).len(), 1);
}

#[test]
fn recent_events_use_cutoff_days_before_today() {
    let txs = vec![tx(Some("2024-03-01")), tx(Some("2024-02-28")), tx(Some("2024-03-09"))];
    let today = LocalDate { year: 2024, month: 3, day: 10 };
    let events = YahooInsiderCollector::recent_insider_events(&txs, &today, 10).unwrap();
    let dates: Vec<&str> = events.iter().map(|e| e.date.as_str()).collect();
    assert_eq!(dates, vec!["2024-03-01", "2024-03-09"]);
    assert!(YahooInsiderCollector::recent_insider_events(&txs, &today, i64::MAX).is_none());
    let bad_day = LocalDate { year: 2024, month: 2, day: 30 };
    assert!(YahooInsiderCollector::recent_insider_events(&txs, &bad_day, 1).is_none());
}
