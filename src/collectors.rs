//! The auxiliary collectors that accompany a price chart: news, insider and
//! institutional activity, and a valuation snapshot. Fetching belongs to
//! their implementations; the decisions on what they fetched are here.

use crate::exchange_clock::{date_before, date_lt, LocalDate};
use crate::text::{
    contains_text, has_substring, lower_of, text_or, text_or_default, to_lower, trim_text,
    trimmed_of, utf8_len,
};
use chrono::Datelike;
use vstd::prelude::*;
use vstd::string::StringExecFns;

verus! {

/// One news article about the instrument.
#[derive(Clone, Debug)]
pub struct NewsItem {
    pub datetime: String,
    pub headline: String,
    pub source: String,
    pub content_snippet: String,
}

/// Why a collector could not deliver.
#[derive(Clone, Debug)]
pub struct CollectError {
    pub message: String,
}

/// A source of recent news about an instrument.
pub trait NewsCollector {
    fn collect_news(&self, ticker: &str, window_days: i64) -> Result<Vec<NewsItem>, CollectError>;
}

/// News from the Google News RSS search, each article's text scraped from
/// its page where the page allows it.
#[derive(Clone, Copy, Debug)]
pub struct GoogleNewsCollector;

/// One trade reported by an insider.
#[derive(Clone, Debug)]
pub struct InsiderEvent {
    pub date: String,
    pub entity_name: String,
    pub relation: String,
    pub transaction_type: String,
    pub value_approx: String,
}

/// One large holder of the instrument.
#[derive(Clone, Debug)]
pub struct InstitutionalEvent {
    pub holder_name: String,
    pub pct_held: String,
}

/// A source of insider trades and institutional holders.
pub trait InsiderCollector {
    fn collect_activity(&self, ticker: &str, window_days: i64) -> Result<
        (Vec<InsiderEvent>, Vec<InstitutionalEvent>),
        CollectError,
    >;
}

/// Insider and holder data from Yahoo's quote summary.
#[derive(Clone, Copy, Debug)]
pub struct YahooInsiderCollector;

/// A valuation snapshot taken from the metadata of Yahoo's chart answer.
#[derive(Clone, Copy, Debug)]
pub struct YahooSnapshotCollector;

/// Number of feed entries whose articles are fetched.
pub const MAX_ARTICLES: usize = 5;

/// Number of holders taken from each ownership list.
pub const MAX_HOLDERS: usize = 5;

/// A scraped article text is usable when it has at least 50 bytes and is not
/// a page that asks for JavaScript.
pub open spec fn scrape_usable(scraped: Seq<char>) -> bool {
    utf8_len(scraped) >= 50 && !has_substring(scraped, "JavaScript is disabled"@)
}

/// The snippet shown for an article: its scraped text where usable, else the
/// feed's summary, else a fixed notice.
pub open spec fn snippet_of(scraped: Seq<char>, summary: Seq<char>) -> Seq<char> {
    if scrape_usable(scraped) {
        scraped
    } else if summary.len() == 0 {
        "Content unavailable."@
    } else {
        "(Summary): "@ + summary
    }
}

/// The source shown for an article: the feed's, or "Google News" where the
/// feed names none.
pub open spec fn source_of(source: Seq<char>) -> Seq<char> {
    if source.len() == 0 {
        "Google News"@
    } else {
        source
    }
}

/// A page paragraph is kept when, trimmed, it has at least 50 bytes and its
/// lower-case form mentions none of the boiler-plate words.
pub open spec fn paragraph_kept(text: Seq<char>) -> bool {
    let clean = trimmed_of(text);
    let low = lower_of(clean);
    &&& utf8_len(clean) >= 50
    &&& !has_substring(low, "cookie"@)
    &&& !has_substring(low, "subscribe"@)
    &&& !has_substring(low, "rights reserved"@)
    &&& !has_substring(low, "click here"@)
    &&& !has_substring(low, "javascript"@)
    &&& !has_substring(low, "adblock"@)
    &&& !has_substring(low, "promo"@)
}

/// The first index from `from` on whose paragraph differs from `x`, or the
/// length where none does.
pub open spec fn first_differing(ps: Seq<Seq<char>>, x: Seq<char>, from: int) -> int
    decreases ps.len() - from,
{
    if from >= ps.len() {
        ps.len() as int
    } else if ps[from] != x {
        from
    } else {
        first_differing(ps, x, from + 1)
    }
}

/// The article text made of kept paragraphs: the first two distinct ones,
/// each followed by a blank line, then the last one unless it was among
/// those two.
pub open spec fn article_body_of(ps: Seq<Seq<char>>) -> Seq<char> {
    if ps.len() == 0 {
        Seq::empty()
    } else {
        let first = ps[0];
        let j = first_differing(ps, first, 1);
        let head = if j < ps.len() {
            first + "\n\n"@ + ps[j] + "\n\n"@
        } else {
            first + "\n\n"@
        };
        let last = ps.last();
        if last != first && (j >= ps.len() || last != ps[j]) {
            head + last
        } else {
            head
        }
    }
}

/// The views of a sequence of texts.
pub open spec fn texts_view(v: Seq<String>) -> Seq<Seq<char>> {
    v.map_values(|s: String| s@)
}

impl GoogleNewsCollector {
    /// The snippet for an article from its scraped text and its feed summary.
    pub fn article_snippet(scraped: &str, summary: &str) -> (r: String)
        ensures
            r@ == snippet_of(scraped@, summary@),
    {
        if scraped.len() < 50 || contains_text(scraped, "JavaScript is disabled") {
            if summary.is_empty() {
                "Content unavailable.".to_owned()
            } else {
                let prefix = "(Summary): ".to_owned();
                prefix.concat(summary)
            }
        } else {
            scraped.to_owned()
        }
    }

    /// The source to show for an article.
    pub fn source_label(source: String) -> (r: String)
        ensures
            r@ == source_of(source@),
    {
        if source.as_str().is_empty() {
            "Google News".to_owned()
        } else {
            source
        }
    }

    /// A news item from a feed entry and the text scraped from its page.
    pub fn news_item(date: String, title: String, source: String, scraped: &str, summary: &str) -> (r: NewsItem)
        ensures
            r.datetime@ == date@,
            r.headline@ == title@,
            r.source@ == source_of(source@),
            r.content_snippet@ == snippet_of(scraped@, summary@),
    {
        NewsItem {
            datetime: date,
            headline: title,
            source: Self::source_label(source),
            content_snippet: Self::article_snippet(scraped, summary),
        }
    }

    /// The feed entries whose articles are fetched: the first five.
    pub fn entries_to_fetch(entries: Vec<FeedEntry>) -> (r: Vec<FeedEntry>)
        ensures
            r@ == entries@.take(if entries@.len() < 5 { entries@.len() as int } else { 5 }),
    {
        let mut kept = entries;
        if kept.len() > MAX_ARTICLES {
            kept.truncate(MAX_ARTICLES);
        } else {
            assert(kept@.take(kept@.len() as int) =~= kept@);
        }
        kept
    }

    /// Links to a search page are not scraped.
    pub fn is_search_link(url: &str) -> (r: bool)
        ensures
            r == has_substring(url@, "google.com/search"@),
    {
        contains_text(url, "google.com/search")
    }

    /// The trimmed text of a page paragraph where it is kept, `None` where it
    /// is dropped.
    pub fn clean_paragraph(text: &str) -> (r: Option<String>)
        ensures
            r is Some <==> paragraph_kept(text@),
            r matches Some(p) ==> p@ == trimmed_of(text@),
    {
        let clean = trim_text(text);
        if clean.as_str().len() < 50 {
            return None;
        }
        let low = to_lower(clean.as_str());
        let l = low.as_str();
        if contains_text(l, "cookie") || contains_text(l, "subscribe") || contains_text(
            l,
            "rights reserved",
        ) || contains_text(l, "click here") || contains_text(l, "javascript") || contains_text(
            l,
            "adblock",
        ) || contains_text(l, "promo") {
            return None;
        }
        Some(clean)
    }

    /// The article text made of the kept paragraphs of a page.
    pub fn article_body(paragraphs: &Vec<String>) -> (r: String)
        ensures
            r@ == article_body_of(texts_view(paragraphs@)),
    {
        let ghost ps = texts_view(paragraphs@);
        let n = paragraphs.len();
        if n == 0 {
            return String::new();
        }
        let first = &paragraphs[0];
        let mut j: usize = 1;
        while j < n && paragraphs[j] == *first
            invariant
                n == paragraphs@.len(),
                1 <= j <= n,
                ps == texts_view(paragraphs@),
                first@ == ps[0],
                first_differing(ps, ps[0], 1) == first_differing(ps, ps[0], j as int),
            decreases n - j,
        {
            j = j + 1;
        }
        let mut body = first.clone();
        body.append("\n\n");
        if j < n {
            body.append(paragraphs[j].as_str());
            body.append("\n\n");
        }
        let last = &paragraphs[n - 1];
        if !(*last == *first) && (j >= n || !(*last == paragraphs[j])) {
            body.append(last.as_str());
        }
        body
    }
}

/// A calendar date read from `YYYY-MM-DD` text by chrono, or `None` where the
/// text is not such a date.
pub uninterp spec fn iso_date_of(s: Seq<char>) -> Option<LocalDate>;

/// Relies on chrono's `NaiveDate::parse_from_str` with the format `%Y-%m-%d`.
#[verifier::external_body]
fn parse_iso_date(s: &str) -> (r: Option<LocalDate>)
    ensures
        r == iso_date_of(s@),
{
    match chrono::NaiveDate::parse_from_str(s, "%Y-%m-%d") {
        Ok(d) => Some(LocalDate { year: d.year(), month: d.month(), day: d.day() }),
        Err(_) => None,
    }
}

/// The date `days` days before the given calendar date, or `None` where
/// the date does not exist or the result leaves chrono's calendar.
pub uninterp spec fn date_minus_days_of(year: int, month: int, day: int, days: int) -> Option<LocalDate>;

/// Relies on chrono's `NaiveDate::from_ymd_opt`, `TimeDelta::try_days` and
/// `NaiveDate::checked_sub_signed`.
#[verifier::external_body]
fn date_minus_days(date: &LocalDate, days: i64) -> (r: Option<LocalDate>)
    ensures
        r == date_minus_days_of(date.year as int, date.month as int, date.day as int, days as int),
{
    let d = chrono::NaiveDate::from_ymd_opt(date.year, date.month, date.day)?;
    let c = d.checked_sub_signed(chrono::TimeDelta::try_days(days)?)?;
    Some(LocalDate { year: c.year(), month: c.month(), day: c.day() })
}

/// One insider transaction as the quote summary reports it.
#[derive(Clone, Debug)]
pub struct RawInsiderTx {
    pub filer_name: Option<String>,
    pub filer_relation: Option<String>,
    pub transaction_text: Option<String>,
    pub start_date: Option<String>,
    pub value_fmt: Option<String>,
}

/// One entry of an ownership list as the quote summary reports it.
#[derive(Clone, Debug)]
pub struct RawOwner {
    pub organization: Option<String>,
    pub pct_held_fmt: Option<String>,
}

/// A transaction is reported when its date is given, reads as a date, and
/// is not before `cutoff`.
pub open spec fn insider_included(tx: RawInsiderTx, cutoff: LocalDate) -> bool {
    match tx.start_date {
        Some(s) => s@.len() > 0 && match iso_date_of(s@) {
            Some(d) => !date_lt(d, cutoff),
            None => false,
        },
        None => false,
    }
}

/// The event reported for an included transaction.
pub open spec fn insider_event_matches(e: InsiderEvent, tx: RawInsiderTx) -> bool {
    &&& e.date@ == text_or(tx.start_date, Seq::empty())
    &&& e.entity_name@ == text_or(tx.filer_name, "Unknown"@)
    &&& e.relation@ == text_or(tx.filer_relation, "Insider"@)
    &&& e.transaction_type@ == text_or(tx.transaction_text, "Trade"@)
    &&& e.value_approx@ == text_or(tx.value_fmt, "0"@)
}

/// The holder reported for an ownership entry, with the given default name.
pub open spec fn holder_matches(h: InstitutionalEvent, o: RawOwner, default_name: Seq<char>) -> bool {
    &&& h.holder_name@ == text_or(o.organization, default_name)
    &&& h.pct_held@ == text_or(o.pct_held_fmt, "0%"@)
}

impl YahooInsiderCollector {
    /// The event for one transaction, `None` where it is not reported.
    pub fn insider_event(tx: &RawInsiderTx, cutoff: &LocalDate) -> (r: Option<InsiderEvent>)
        ensures
            r is Some <==> insider_included(*tx, *cutoff),
            r matches Some(e) ==> insider_event_matches(e, *tx),
    {
        let date = match &tx.start_date {
            Some(s) => s,
            None => {
                return None;
            },
        };
        if date.as_str().is_empty() {
            return None;
        }
        match parse_iso_date(date.as_str()) {
            Some(d) => {
                if date_before(&d, cutoff) {
                    return None;
                }
            },
            None => {
                return None;
            },
        }
        Some(
            InsiderEvent {
                date: date.clone(),
                entity_name: text_or_default(&tx.filer_name, "Unknown"),
                relation: text_or_default(&tx.filer_relation, "Insider"),
                transaction_type: text_or_default(&tx.transaction_text, "Trade"),
                value_approx: text_or_default(&tx.value_fmt, "0"),
            },
        )
    }

    /// The events of the reported transactions, in their order.
    pub fn insider_events(txs: &Vec<RawInsiderTx>, cutoff: &LocalDate) -> (r: Vec<InsiderEvent>)
        ensures
            r@.len() == txs@.filter(|tx: RawInsiderTx| insider_included(tx, *cutoff)).len(),
            forall|i: int| 0 <= i < r@.len() ==> insider_event_matches(
                #[trigger] r@[i],
                txs@.filter(|tx: RawInsiderTx| insider_included(tx, *cutoff))[i],
            ),
    {
        let ghost f = |tx: RawInsiderTx| insider_included(tx, *cutoff);
        let mut out: Vec<InsiderEvent> = Vec::new();
        let n = txs.len();
        let mut i: usize = 0;
        while i < n
            invariant
                n == txs@.len(),
                i <= n,
                f == (|tx: RawInsiderTx| insider_included(tx, *cutoff)),
                out@.len() == txs@.take(i as int).filter(f).len(),
                forall|k: int| 0 <= k < out@.len() ==> insider_event_matches(
                    #[trigger] out@[k],
                    txs@.take(i as int).filter(f)[k],
                ),
            decreases n - i,
        {
            let ghost pre = txs@.take(i as int);
            let ghost cur = txs@.take(i + 1);
            assert(cur.drop_last() =~= pre);
            assert(cur.last() == txs@[i as int]);
            proof {
                reveal(Seq::filter);
            }
            assert(cur.filter(f) == if f(cur.last()) {
                pre.filter(f).push(cur.last())
            } else {
                pre.filter(f)
            });
            match Self::insider_event(&txs[i], cutoff) {
                Some(e) => {
                    out.push(e);
                },
                None => {},
            }
            i = i + 1;
        }
        assert(txs@.take(n as int) =~= txs@);
        out
    }

    /// The events of the transactions of the last `window_days` days before
    /// `today`; `None` where that cutoff lies outside the calendar.
    pub fn recent_insider_events(txs: &Vec<RawInsiderTx>, today: &LocalDate, window_days: i64) -> (r: Option<Vec<InsiderEvent>>)
        ensures
            match date_minus_days_of(today.year as int, today.month as int, today.day as int, window_days as int) {
                None => r is None,
                Some(cutoff) => r matches Some(v) && v@.len() == txs@.filter(|tx: RawInsiderTx| insider_included(tx, cutoff)).len()
                    && forall|i: int| 0 <= i < v@.len() ==> insider_event_matches(
                        #[trigger] v@[i],
                        txs@.filter(|tx: RawInsiderTx| insider_included(tx, cutoff))[i],
                    ),
            },
    {
        match date_minus_days(today, window_days) {
            Some(cutoff) => Some(Self::insider_events(txs, &cutoff)),
            None => None,
        }
    }

    /// The first holders of each list: institutions first, then funds.
    pub fn holders(institutions: &Vec<RawOwner>, funds: &Vec<RawOwner>) -> (r: Vec<InstitutionalEvent>)
        ensures
            ({
                let a = if institutions@.len() < 5 { institutions@.len() as int } else { 5 };
                let b = if funds@.len() < 5 { funds@.len() as int } else { 5 };
                &&& r@.len() == a + b
                &&& forall|i: int| 0 <= i < a ==> holder_matches(#[trigger] r@[i], institutions@[i], "Unknown"@)
                &&& forall|i: int| a <= i < a + b ==> holder_matches(#[trigger] r@[i], funds@[i - a], "Unknown Fund"@)
            }),
    {
        let mut out: Vec<InstitutionalEvent> = Vec::new();
        let na = if institutions.len() < MAX_HOLDERS { institutions.len() } else { MAX_HOLDERS };
        let mut i: usize = 0;
        while i < na
            invariant
                na <= institutions@.len(),
                na <= 5,
                i <= na,
                out@.len() == i,
                forall|k: int| 0 <= k < i ==> holder_matches(#[trigger] out@[k], institutions@[k], "Unknown"@),
            decreases na - i,
        {
            let o = &institutions[i];
            out.push(
                InstitutionalEvent {
                    holder_name: text_or_default(&o.organization, "Unknown"),
                    pct_held: text_or_default(&o.pct_held_fmt, "0%"),
                },
            );
            i = i + 1;
        }
        let nb = if funds.len() < MAX_HOLDERS { funds.len() } else { MAX_HOLDERS };
        let mut j: usize = 0;
        while j < nb
            invariant
                na <= 5,
                nb <= funds@.len(),
                nb <= 5,
                j <= nb,
                out@.len() == na + j,
                forall|k: int| 0 <= k < na ==> holder_matches(#[trigger] out@[k], institutions@[k], "Unknown"@),
                forall|k: int| na <= k < na + j ==> holder_matches(#[trigger] out@[k], funds@[k - na], "Unknown Fund"@),
            decreases nb - j,
        {
            let o = &funds[j];
            out.push(
                InstitutionalEvent {
                    holder_name: text_or_default(&o.organization, "Unknown Fund"),
                    pct_held: text_or_default(&o.pct_held_fmt, "0%"),
                },
            );
            j = j + 1;
        }
        out
    }
}

/// The notes line of a snapshot: the currency (empty where unknown) and the
/// symbol.
pub open spec fn snapshot_notes_of(currency: Option<String>, symbol: Seq<char>) -> Seq<char> {
    "Currency: "@ + text_or(currency, Seq::empty()) + ", Symbol: "@ + symbol
}

impl YahooSnapshotCollector {
    /// Name of the source that a snapshot records.
    pub fn source_name() -> (r: String)
        ensures
            r@ == "YahooChartMeta"@,
    {
        "YahooChartMeta".to_owned()
    }

    /// The notes line for a snapshot.
    pub fn notes(currency: &Option<String>, symbol: &str) -> (r: String)
        ensures
            r@ == snapshot_notes_of(*currency, symbol@),
    {
        let mut s = "Currency: ".to_owned();
        match currency {
            Some(c) => s.append(c.as_str()),
            None => {},
        }
        s.append(", Symbol: ");
        s.append(symbol);
        s
    }
}

/// One item of a news feed, before its article is fetched; the description
/// is still escaped HTML.
#[derive(Clone, Debug)]
pub struct FeedEntry {
    pub date: String,
    pub title: String,
    pub source: String,
    pub link: String,
    pub description: String,
}

/// An element of a feed item whose text the item records.
#[derive(Clone, Copy, Debug, PartialEq, Eq, Structural)]
pub enum FeedField {
    Title,
    Link,
    PubDate,
    Source,
    Description,
}

/// The field that an element of a feed item records, by its tag name.
pub open spec fn field_named(tag: Seq<char>) -> Option<FeedField> {
    if tag == "title"@ {
        Some(FeedField::Title)
    } else if tag == "link"@ {
        Some(FeedField::Link)
    } else if tag == "pubDate"@ {
        Some(FeedField::PubDate)
    } else if tag == "source"@ {
        Some(FeedField::Source)
    } else if tag == "description"@ {
        Some(FeedField::Description)
    } else {
        None
    }
}

/// The reading of a news feed, element by element: whether an item is open
/// and the texts recorded for it so far.
#[derive(Clone, Debug)]
pub struct FeedState {
    pub in_item: bool,
    pub current: FeedEntry,
}

/// An entry with every text empty.
pub open spec fn is_blank(e: FeedEntry) -> bool {
    &&& e.date@.len() == 0
    &&& e.title@.len() == 0
    &&& e.source@.len() == 0
    &&& e.link@.len() == 0
    &&& e.description@.len() == 0
}

/// `e` holds the same texts as `f`.
pub open spec fn same_entry(e: FeedEntry, f: FeedEntry) -> bool {
    &&& e.date@ == f.date@
    &&& e.title@ == f.title@
    &&& e.source@ == f.source@
    &&& e.link@ == f.link@
    &&& e.description@ == f.description@
}

/// `e` is `f` with `field` set to `text`.
pub open spec fn entry_with(e: FeedEntry, f: FeedEntry, field: FeedField, text: Seq<char>) -> bool {
    &&& e.date@ == if field == FeedField::PubDate { text } else { f.date@ }
    &&& e.title@ == if field == FeedField::Title { text } else { f.title@ }
    &&& e.source@ == if field == FeedField::Source { text } else { f.source@ }
    &&& e.link@ == if field == FeedField::Link { text } else { f.link@ }
    &&& e.description@ == if field == FeedField::Description { text } else { f.description@ }
}

fn blank_entry() -> (r: FeedEntry)
    ensures
        is_blank(r),
{
    FeedEntry {
        date: String::new(),
        title: String::new(),
        source: String::new(),
        link: String::new(),
        description: String::new(),
    }
}

impl FeedState {
    /// The state before the first element.
    pub fn new() -> (r: FeedState)
        ensures
            !r.in_item,
            is_blank(r.current),
    {
        FeedState { in_item: false, current: blank_entry() }
    }

    /// An element opens: `item` opens an item; inside an item, the field
    /// whose text is to be read next is returned.
    pub fn start_element(&mut self, tag: &String) -> (r: Option<FeedField>)
        ensures
            tag@ == "item"@ ==> final(self).in_item && r is None,
            tag@ != "item"@ ==> final(self).in_item == old(self).in_item && r == if old(
                self,
            ).in_item {
                field_named(tag@)
            } else {
                None
            },
            same_entry(final(self).current, old(self).current),
    {
        if *tag == "item".to_owned() {
            self.in_item = true;
            return None;
        }
        if !self.in_item {
            return None;
        }
        if *tag == "title".to_owned() {
            Some(FeedField::Title)
        } else if *tag == "link".to_owned() {
            Some(FeedField::Link)
        } else if *tag == "pubDate".to_owned() {
            Some(FeedField::PubDate)
        } else if *tag == "source".to_owned() {
            Some(FeedField::Source)
        } else if *tag == "description".to_owned() {
            Some(FeedField::Description)
        } else {
            None
        }
    }

    /// Records the text read for a field of the open item.
    pub fn set_field(&mut self, field: FeedField, text: String)
        ensures
            final(self).in_item == old(self).in_item,
            entry_with(final(self).current, old(self).current, field, text@),
    {
        match field {
            FeedField::Title => self.current.title = text,
            FeedField::Link => self.current.link = text,
            FeedField::PubDate => self.current.date = text,
            FeedField::Source => self.current.source = text,
            FeedField::Description => self.current.description = text,
        }
    }

    /// An element closes: closing `item` hands out the item where it has a
    /// link, and starts afresh.
    pub fn end_element(&mut self, tag: &String) -> (r: Option<FeedEntry>)
        ensures
            tag@ == "item"@ ==> {
                &&& !final(self).in_item
                &&& is_blank(final(self).current)
                &&& (r is Some <==> old(self).current.link@.len() > 0)
                &&& r matches Some(e) ==> same_entry(e, old(self).current)
            },
            tag@ != "item"@ ==> r is None && final(self).in_item == old(self).in_item && same_entry(
                final(self).current,
                old(self).current,
            ),
    {
        if !(*tag == "item".to_owned()) {
            return None;
        }
        let done = FeedEntry {
            date: self.current.date.clone(),
            title: self.current.title.clone(),
            source: self.current.source.clone(),
            link: self.current.link.clone(),
            description: self.current.description.clone(),
        };
        self.current = blank_entry();
        self.in_item = false;
        if done.link.as_str().is_empty() {
            None
        } else {
            Some(done)
        }
    }
}

} // verus!
