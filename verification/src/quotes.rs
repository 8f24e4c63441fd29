//! Quotes and dividends from what the endpoints answer.

use rust_decimal::Decimal;
use vstd::prelude::*;
use vstd::string::*;

use crate::models;
use crate::models::{
    ChartPoint, ChartResponse, DividendEvent, MarketDataError, MarketDataErrorView, Quote,
    QuoteResponse, QuoteView,
};
use crate::provider::{JustEtfProvider, PROVIDER_ID};
use crate::time;
use crate::time::Timestamp;

verus! {

/// A price of a chart with the day that its date names: either may be missing.
#[derive(Debug, Clone, Copy, PartialEq, Eq)]
pub struct DatedClose {
    pub day: Option<i32>,
    pub close: Option<Decimal>,
}

/// The price of a quote response with the day that its date names; each part may be missing.
#[derive(Debug, Clone, Copy, PartialEq, Eq)]
pub struct DatedQuote {
    pub day: Option<i32>,
    pub close: Option<Decimal>,
    pub high: Option<Decimal>,
    pub low: Option<Decimal>,
}

/// A quote of this provider, which knows neither opening prices nor volumes.
pub open spec fn quote(
    timestamp: Timestamp,
    high: Option<Decimal>,
    low: Option<Decimal>,
    close: Decimal,
    currency: Seq<char>,
) -> QuoteView {
    QuoteView {
        timestamp,
        open: None,
        high,
        low,
        close,
        volume: None,
        currency,
        source: PROVIDER_ID@,
    }
}

/// The day is known and begins within the range.
pub open spec fn day_within(day: Option<i32>, start: Timestamp, end: Timestamp) -> bool {
    match day {
        Some(day) => Timestamp::midnight_of(day as int).within(start, end),
        None => false,
    }
}

impl DatedQuote {
    /// The quote of a latest price that is known and whose day is known.
    pub open spec fn quote(self, currency: Seq<char>) -> QuoteView {
        quote(
            Timestamp::midnight_of(self.day->0 as int),
            self.high,
            self.low,
            self.close->0,
            currency,
        )
    }
}

impl DatedClose {
    /// The price is known, and so is its day, which begins within the range.
    pub open spec fn counts(self, start: Timestamp, end: Timestamp) -> bool {
        self.close is Some && day_within(self.day, start, end)
    }

    /// The quote of a price that is known and whose day is known.
    pub open spec fn quote(self, currency: Seq<char>) -> QuoteView {
        quote(Timestamp::midnight_of(self.day->0 as int), None, None, self.close->0, currency)
    }
}

/// The quotes of a chart: those of its known prices within the range, in the chart's order.
pub open spec fn chart_quotes(
    points: Seq<DatedClose>,
    currency: Seq<char>,
    start: Timestamp,
    end: Timestamp,
) -> Seq<QuoteView> {
    points.filter(|point: DatedClose| point.counts(start, end)).map_values(
        |point: DatedClose| point.quote(currency),
    )
}

/// One of the quotes lies on the day.
pub open spec fn has_day(quotes: Seq<QuoteView>, day: i32) -> bool {
    exists|i: int| 0 <= i < quotes.len() && (#[trigger] quotes[i]).timestamp.day() == day
}

/// The latest price is worth adding to the quotes: it is known, and so is its day, which begins
/// within the range and has no quote yet.
pub open spec fn adds_to(
    latest: DatedQuote,
    quotes: Seq<QuoteView>,
    start: Timestamp,
    end: Timestamp,
) -> bool {
    &&& latest.close is Some
    &&& day_within(latest.day, start, end)
    &&& !has_day(quotes, latest.day->0)
}

/// The quotes of a chart, and that of the latest price where it is worth adding.
pub open spec fn merged_quotes(
    points: Seq<DatedClose>,
    latest: Option<DatedQuote>,
    currency: Seq<char>,
    start: Timestamp,
    end: Timestamp,
) -> Seq<QuoteView> {
    let listed = chart_quotes(points, currency, start, end);
    match latest {
        Some(latest) if adds_to(latest, listed, start, end) => listed.push(
            latest.quote(currency),
        ),
        _ => listed,
    }
}

/// The merged quotes; where there are none although the chart had points, that the range holds no
/// data.
pub open spec fn history(
    points: Seq<DatedClose>,
    latest: Option<DatedQuote>,
    currency: Seq<char>,
    start: Timestamp,
    end: Timestamp,
) -> Result<Seq<QuoteView>, MarketDataErrorView> {
    let quotes = merged_quotes(points, latest, currency, start, end);
    if quotes.len() == 0 && points.len() > 0 {
        Err(MarketDataErrorView::NoDataForRange)
    } else {
        Ok(quotes)
    }
}

/// The points of a chart with the days that their dates name.
pub open spec fn dated_series(series: Seq<ChartPoint<Option<Decimal>>>) -> Seq<DatedClose> {
    series.map_values(
        |point: ChartPoint<Option<Decimal>>|
            DatedClose { day: time::endpoint_day(point.date@), close: point.value },
    )
}

/// The high of a quote response, where it has one that converts.
pub open spec fn high_of(response: QuoteResponse) -> Option<Decimal> {
    match response.quote_low_high {
        Some(low_high) => low_high.high.decimal,
        None => None,
    }
}

/// The low of a quote response, where it has one that converts.
pub open spec fn low_of(response: QuoteResponse) -> Option<Decimal> {
    match response.quote_low_high {
        Some(low_high) => low_high.low.decimal,
        None => None,
    }
}

/// A quote response with the day that its date names.
pub open spec fn dated_response(response: QuoteResponse) -> DatedQuote {
    DatedQuote {
        day: time::endpoint_day(response.latest_quote_date@),
        close: response.latest_quote.decimal,
        high: high_of(response),
        low: low_of(response),
    }
}

/// A latest quote that was asked for beside a chart; where that failed, there is none.
pub open spec fn dated_latest(latest: Result<QuoteResponse, MarketDataError>) -> Option<
    DatedQuote,
> {
    match latest {
        Ok(response) => Some(dated_response(response)),
        Err(_) => None,
    }
}

/// A quote of this provider.
fn make_quote(
    timestamp: Timestamp,
    high: Option<Decimal>,
    low: Option<Decimal>,
    close: Decimal,
    currency: &str,
) -> (made: Quote)
    ensures
        made.deep_view() == quote(timestamp, high, low, close, currency@),
{
    Quote {
        timestamp,
        open: None,
        high,
        low,
        close,
        volume: None,
        currency: currency.to_owned(),
        source: PROVIDER_ID.to_owned(),
    }
}

/// The quotes of a chart: those of its known prices within the range, in the chart's order.
fn list_quotes(points: &Vec<DatedClose>, currency: &str, start: Timestamp, end: Timestamp) -> (quotes:
    Vec<Quote>)
    ensures
        quotes.deep_view() == chart_quotes(points@, currency@, start, end),
{
    let mut quotes: Vec<Quote> = Vec::new();
    let ghost counts = |point: DatedClose| point.counts(start, end);
    let ghost as_quote = |point: DatedClose| point.quote(currency@);
    let mut i: usize = 0;
    proof {
        reveal(Seq::filter);
        assert(points@.take(0).filter(counts) =~= Seq::empty());
    }
    while i < points.len()
        invariant
            i <= points@.len(),
            counts == |point: DatedClose| point.counts(start, end),
            as_quote == |point: DatedClose| point.quote(currency@),
            quotes.deep_view() == points@.take(i as int).filter(counts).map_values(as_quote),
        decreases points@.len() - i,
    {
        let point = points[i];
        let ghost before = points@.take(i as int).filter(counts);
        let ghost earlier = quotes.deep_view();
        proof {
            reveal(Seq::filter);
            assert(points@.take(i + 1).drop_last() =~= points@.take(i as int));
            assert(points@.take(i + 1).last() == point);
            assert(before.push(point).map_values(as_quote) =~= before.map_values(as_quote).push(
                as_quote(point),
            ));
        }
        if let (Some(day), Some(close)) = (point.day, point.close) {
            let timestamp = Timestamp::midnight(day);
            if timestamp.is_within(&start, &end) {
                let made = make_quote(timestamp, None, None, close, currency);
                quotes.push(made);
                assert(quotes.deep_view() =~= earlier.push(made.deep_view()));
            }
        }
        i += 1;
    }
    assert(points@.take(i as int) =~= points@);
    quotes
}

/// Every quote of a chart lies on the midnight of a day within the range.
proof fn lemma_chart_quotes_are_midnights(
    points: Seq<DatedClose>,
    currency: Seq<char>,
    start: Timestamp,
    end: Timestamp,
)
    ensures
        forall|i: int|
            0 <= i < chart_quotes(points, currency, start, end).len() ==> exists|j: int|
                0 <= j < points.len() && (#[trigger] points[j]).counts(start, end)
                    && #[trigger] chart_quotes(points, currency, start, end)[i] == points[j].quote(
                    currency,
                ),
{
    let counts = |point: DatedClose| point.counts(start, end);
    let kept = points.filter(counts);
    let listed = chart_quotes(points, currency, start, end);
    assert forall|i: int| 0 <= i < listed.len() implies exists|j: int|
        0 <= j < points.len() && (#[trigger] points[j]).counts(start, end)
            && #[trigger] listed[i] == points[j].quote(currency) by {
        assert(counts(kept[i]));
        assert(kept.contains(kept[i]));
        points.lemma_filter_contains_rev(counts, kept[i]);
        let j = choose|j: int| 0 <= j < points.len() && points[j] == kept[i];
        assert(points[j].counts(start, end));
        assert(listed[i] == points[j].quote(currency));
    }
}

/// One of the quotes lies on the midnight of the day.
fn lies_on(quotes: &Vec<Quote>, midnight: Timestamp) -> (found: bool)
    ensures
        found == exists|i: int|
            0 <= i < quotes@.len() && (#[trigger] quotes@[i]).timestamp == midnight,
{
    let mut i: usize = 0;
    while i < quotes.len()
        invariant
            i <= quotes@.len(),
            forall|j: int| 0 <= j < i ==> (#[trigger] quotes@[j]).timestamp != midnight,
        decreases quotes@.len() - i,
    {
        if quotes[i].timestamp == midnight {
            return true;
        }
        i += 1;
    }
    false
}

/// The history of a fund from the dated prices of its chart and its latest price.
pub fn merge_history(
    points: &Vec<DatedClose>,
    latest: &Option<DatedQuote>,
    currency: &str,
    start: Timestamp,
    end: Timestamp,
) -> (quotes: Result<Vec<Quote>, MarketDataError>)
    ensures
        models::outcome(quotes) == history(points@, *latest, currency@, start, end),
{
    let mut quotes = list_quotes(points, currency, start, end);
    let ghost listed = chart_quotes(points@, currency@, start, end);
    if let Some(latest) = latest {
        if let (Some(day), Some(close)) = (latest.day, latest.close) {
            let timestamp = Timestamp::midnight(day);
            proof {
                lemma_chart_quotes_are_midnights(points@, currency@, start, end);
                assert forall|i: int| 0 <= i < listed.len() implies (listed[i].timestamp.day() == day
                    <==> listed[i].timestamp == timestamp) && listed[i].timestamp
                    == #[trigger] quotes@[i].timestamp by {
                    assert(quotes.deep_view()[i] == listed[i]);
                    let j = choose|j: int|
                        0 <= j < points@.len() && (#[trigger] points@[j]).counts(start, end)
                            && listed[i] == points@[j].quote(currency@);
                    time::midnight_lies_on_its_day(day, points@[j].day->0);
                    time::midnight_lies_on_its_day(points@[j].day->0, day);
                }
            }
            if timestamp.is_within(&start, &end) && !lies_on(&quotes, timestamp) {
                assert(!has_day(listed, day));
                let made = make_quote(timestamp, latest.high, latest.low, close, currency);
                quotes.push(made);
                assert(quotes.deep_view() =~= listed.push(made.deep_view()));
            } else if timestamp.is_within(&start, &end) {
                assert(has_day(listed, day)) by {
                    let i = choose|i: int|
                        0 <= i < quotes@.len() && (#[trigger] quotes@[i]).timestamp == timestamp;
                    assert(listed[i].timestamp.day() == day);
                }
            }
        }
    }
    if quotes.len() == 0 && points.len() > 0 {
        return Err(MarketDataError::NoDataForRange);
    }
    Ok(quotes)
}

/// A dividend of a chart with the day that its date names, which may be missing.
#[derive(Debug, PartialEq, Eq)]
pub struct DatedAmount<A> {
    pub day: Option<i32>,
    pub amount: A,
}

impl<A> DatedAmount<A> {
    /// The event of a dividend whose day is known.
    pub open spec fn event(self) -> DividendEvent<A> {
        DividendEvent {
            amount: self.amount,
            date: Timestamp::midnight_of(self.day->0 as int).secs,
        }
    }
}

/// The dividends whose day is known and begins within the range, in the chart's order.
pub open spec fn dividend_events<A>(
    points: Seq<DatedAmount<A>>,
    start: Timestamp,
    end: Timestamp,
) -> Seq<DividendEvent<A>> {
    points.filter(|point: DatedAmount<A>| day_within(point.day, start, end)).map_values(
        |point: DatedAmount<A>| point.event(),
    )
}

/// The dividends of a chart with the days that their dates name.
pub open spec fn dated_amounts<A>(points: Seq<ChartPoint<A>>) -> Seq<DatedAmount<A>> {
    points.map_values(
        |point: ChartPoint<A>|
            DatedAmount { day: time::endpoint_day(point.date@), amount: point.value },
    )
}

/// The dividends whose day is known and begins within the range, in the chart's order.
pub fn select_dividends<A: Copy>(
    points: &Vec<DatedAmount<A>>,
    start: Timestamp,
    end: Timestamp,
) -> (events: Vec<DividendEvent<A>>)
    ensures
        events@ == dividend_events(points@, start, end),
{
    let mut events: Vec<DividendEvent<A>> = Vec::new();
    let ghost counts = |point: DatedAmount<A>| day_within(point.day, start, end);
    let ghost as_event = |point: DatedAmount<A>| point.event();
    let mut i: usize = 0;
    proof {
        reveal(Seq::filter);
        assert(points@.take(0).filter(counts) =~= Seq::empty());
    }
    while i < points.len()
        invariant
            i <= points@.len(),
            counts == |point: DatedAmount<A>| day_within(point.day, start, end),
            as_event == |point: DatedAmount<A>| point.event(),
            events@ == points@.take(i as int).filter(counts).map_values(as_event),
        decreases points@.len() - i,
    {
        let ghost before = points@.take(i as int).filter(counts);
        proof {
            reveal(Seq::filter);
            let point = points@[i as int];
            assert(points@.take(i + 1).drop_last() =~= points@.take(i as int));
            assert(points@.take(i + 1).last() == point);
            assert(before.push(point).map_values(as_event) =~= before.map_values(as_event).push(
                as_event(point),
            ));
        }
        if let Some(day) = points[i].day {
            let timestamp = Timestamp::midnight(day);
            if timestamp.is_within(&start, &end) {
                events.push(DividendEvent { amount: points[i].amount, date: timestamp.secs });
            }
        }
        i += 1;
    }
    assert(points@.take(i as int) =~= points@);
    events
}

/// What is said of a price that converts to no decimal.
pub open spec fn conversion_message(printed: Seq<char>) -> Seq<char> {
    "Failed to convert quote price "@ + printed + " to decimal"@
}

/// The latest quote of a response whose date names `day`, read at the time `now`: it is of that
/// day, or of now where the date names none. A price that converts to no decimal is refused.
pub open spec fn latest_quote(
    response: QuoteResponse,
    currency: Seq<char>,
    day: Option<i32>,
    now: Timestamp,
) -> Result<QuoteView, MarketDataErrorView> {
    match response.latest_quote.decimal {
        Some(close) => Ok(
            quote(
                match day {
                    Some(day) => Timestamp::midnight_of(day as int),
                    None => now,
                },
                high_of(response),
                low_of(response),
                close,
                currency,
            ),
        ),
        None => Err(
            MarketDataErrorView::ValidationFailed {
                message: conversion_message(response.latest_quote.printed@),
            },
        ),
    }
}

/// The price of a response converts to a decimal, but its date names no day.
pub open spec fn needs_the_clock(response: QuoteResponse) -> bool {
    response.latest_quote.decimal is Some && time::endpoint_day(response.latest_quote_date@) is None
}

/// The high of a quote response, where it has one that converts.
fn response_high(response: &QuoteResponse) -> (high: Option<Decimal>)
    ensures
        high == high_of(*response),
{
    match &response.quote_low_high {
        Some(low_high) => low_high.high.decimal,
        None => None,
    }
}

/// The low of a quote response, where it has one that converts.
fn response_low(response: &QuoteResponse) -> (low: Option<Decimal>)
    ensures
        low == low_of(*response),
{
    match &response.quote_low_high {
        Some(low_high) => low_high.low.decimal,
        None => None,
    }
}

/// The latest quote of a response whose date names `day`, read at the time `now`.
pub fn latest_quote_at(
    response: &QuoteResponse,
    currency: &str,
    day: Option<i32>,
    now: Timestamp,
) -> (made: Result<Quote, MarketDataError>)
    ensures
        models::outcome(made) == latest_quote(*response, currency@, day, now),
{
    match response.latest_quote.decimal {
        Some(close) => {
            let timestamp = match day {
                Some(day) => Timestamp::midnight(day),
                None => now,
            };
            let high = response_high(response);
            let low = response_low(response);
            Ok(make_quote(timestamp, high, low, close, currency))
        },
        None => {
            let message = "Failed to convert quote price ".to_owned().concat(
                response.latest_quote.printed.as_str(),
            ).concat(" to decimal");
            Err(MarketDataError::ValidationFailed { message })
        },
    }
}

impl JustEtfProvider {
    /// The latest quote of a response of the quote endpoint. Where the response's date can be
    /// read, the quote is of that day; where it cannot, of the time that the clock shows. For no
    /// other response, and for none whose price is refused, is the clock read.
    pub fn get_latest_quote(&self, currency: &str, response: &QuoteResponse) -> (made: Result<
        Quote,
        MarketDataError,
    >)
        ensures
            exists|now: Timestamp|
                {
                    &&& models::outcome(made) == #[trigger] latest_quote(
                        *response,
                        currency@,
                        time::endpoint_day(response.latest_quote_date@),
                        now,
                    )
                    &&& needs_the_clock(*response) ==> time::is_read_from_the_clock(now)
                },
    {
        let day = time::day_of(response.latest_quote_date.as_str());
        let now = match (day, response.latest_quote.decimal) {
            (None, Some(_)) => time::read_clock(),
            // The time does not count: the day is known, or the price is refused.
            _ => Timestamp { secs: 0, nanos: 0 },
        };
        latest_quote_at(response, currency, day, now)
    }

    /// The history of a fund from the response of the chart endpoint and what came of asking for
    /// its latest quote.
    pub fn get_historical_quotes<A>(
        &self,
        currency: &str,
        response: &ChartResponse<A>,
        latest: &Result<QuoteResponse, MarketDataError>,
        start: Timestamp,
        end: Timestamp,
    ) -> (quotes: Result<Vec<Quote>, MarketDataError>)
        ensures
            models::outcome(quotes) == history(
                dated_series(response.series@),
                dated_latest(*latest),
                currency@,
                start,
                end,
            ),
    {
        let mut points: Vec<DatedClose> = Vec::new();
        let mut i: usize = 0;
        while i < response.series.len()
            invariant
                i <= response.series@.len(),
                points@ == dated_series(response.series@).take(i as int),
            decreases response.series@.len() - i,
        {
            let day = time::day_of(response.series[i].date.as_str());
            points.push(DatedClose { day, close: response.series[i].value });
            assert(points@ =~= dated_series(response.series@).take(i + 1));
            i += 1;
        }
        assert(points@ =~= dated_series(response.series@));
        let latest = match latest {
            Ok(response) => Some(
                DatedQuote {
                    day: time::day_of(response.latest_quote_date.as_str()),
                    close: response.latest_quote.decimal,
                    high: response_high(response),
                    low: response_low(response),
                },
            ),
            Err(_) => None,
        };
        merge_history(&points, &latest, currency, start, end)
    }

    /// The dividends in a response of the chart endpoint; a chart without features has none.
    pub fn get_dividends<A: Copy>(
        &self,
        response: &ChartResponse<A>,
        start: Timestamp,
        end: Timestamp,
    ) -> (events: Vec<DividendEvent<A>>)
        ensures
            events@ == match response.features {
                Some(features) => dividend_events(
                    dated_amounts(features.dividends@),
                    start,
                    end,
                ),
                None => Seq::empty(),
            },
    {
        match &response.features {
            Some(features) => {
                let mut points: Vec<DatedAmount<A>> = Vec::new();
                let mut i: usize = 0;
                while i < features.dividends.len()
                    invariant
                        i <= features.dividends@.len(),
                        points@ == dated_amounts(features.dividends@).take(i as int),
                    decreases features.dividends@.len() - i,
                {
                    let day = time::day_of(features.dividends[i].date.as_str());
                    points.push(DatedAmount { day, amount: features.dividends[i].value });
                    assert(points@ =~= dated_amounts(features.dividends@).take(i + 1));
                    i += 1;
                }
                assert(points@ =~= dated_amounts(features.dividends@));
                select_dividends(&points, start, end)
            },
            None => Vec::new(),
        }
    }
}

/// Every quote of a history lies within the range, is in the currency asked for and names this
/// provider as its source; and it has neither an opening price nor a volume.
pub proof fn history_stays_within_range(
    points: Seq<DatedClose>,
    latest: Option<DatedQuote>,
    currency: Seq<char>,
    start: Timestamp,
    end: Timestamp,
)
    ensures
        history(points, latest, currency, start, end) matches Ok(quotes) ==> forall|i: int|
            0 <= i < quotes.len() ==> {
                &&& (#[trigger] quotes[i]).timestamp.within(start, end)
                &&& quotes[i].currency == currency
                &&& quotes[i].source == PROVIDER_ID@
                &&& quotes[i].open is None
                &&& quotes[i].volume is None
            },
{
    lemma_chart_quotes_are_midnights(points, currency, start, end);
    let listed = chart_quotes(points, currency, start, end);
    let quotes = merged_quotes(points, latest, currency, start, end);
    assert forall|i: int| 0 <= i < quotes.len() implies (#[trigger] quotes[i]).timestamp.within(
        start,
        end,
    ) && quotes[i].currency == currency && quotes[i].source == PROVIDER_ID@ && quotes[i].open is None
        && quotes[i].volume is None by {
        if i < listed.len() {
            assert(quotes[i] == listed[i]);
        }
    }
}

/// The chart ends with the previous trading day; a latest price that is known and falls within
/// the range is never lost: the history has a quote of its day.
pub proof fn history_reaches_the_latest_day(
    points: Seq<DatedClose>,
    latest: DatedQuote,
    currency: Seq<char>,
    start: Timestamp,
    end: Timestamp,
)
    requires
        latest.close is Some,
        day_within(latest.day, start, end),
    ensures
        history(points, Some(latest), currency, start, end) matches Ok(quotes) && has_day(
            quotes,
            latest.day->0,
        ),
{
    let listed = chart_quotes(points, currency, start, end);
    let quotes = merged_quotes(points, Some(latest), currency, start, end);
    if has_day(listed, latest.day->0) {
        assert(quotes == listed);
        let i = choose|i: int|
            0 <= i < listed.len() && (#[trigger] listed[i]).timestamp.day() == latest.day->0;
        assert(quotes[i].timestamp.day() == latest.day->0);
    } else {
        time::midnight_lies_on_its_day(latest.day->0, latest.day->0);
        assert(quotes.last().timestamp.day() == latest.day->0);
    }
}

/// The latest price adds at most one quote, at the end, and on a day that had none; the quotes of
/// the chart stay as they were.
pub proof fn history_keeps_the_chart(
    points: Seq<DatedClose>,
    latest: Option<DatedQuote>,
    currency: Seq<char>,
    start: Timestamp,
    end: Timestamp,
)
    ensures
        ({
            let listed = chart_quotes(points, currency, start, end);
            let quotes = merged_quotes(points, latest, currency, start, end);
            &&& listed.len() <= quotes.len() <= listed.len() + 1
            &&& quotes.take(listed.len() as int) == listed
            &&& forall|i: int|
                0 <= i < listed.len() < quotes.len() ==> (#[trigger] listed[i]).timestamp.day()
                    != quotes.last().timestamp.day()
        }),
{
    let listed = chart_quotes(points, currency, start, end);
    let quotes = merged_quotes(points, latest, currency, start, end);
    assert(quotes.take(listed.len() as int) =~= listed);
    if listed.len() < quotes.len() {
        let day = latest->0.day->0;
        time::midnight_lies_on_its_day(day, day);
        assert forall|i: int| 0 <= i < listed.len() implies (#[trigger] listed[i]).timestamp.day()
            != quotes.last().timestamp.day() by {
            assert(!has_day(listed, day));
        }
    }
}

/// That no latest price could be had costs nothing but that price.
pub proof fn history_without_latest_is_the_chart(
    points: Seq<DatedClose>,
    currency: Seq<char>,
    start: Timestamp,
    end: Timestamp,
)
    ensures
        merged_quotes(points, None, currency, start, end) == chart_quotes(
            points,
            currency,
            start,
            end,
        ),
{
}

/// A chart without points is no failure, whatever the range; one with points is a failure only
/// where neither they nor the latest price gave a quote.
pub proof fn history_fails_only_without_quotes(
    points: Seq<DatedClose>,
    latest: Option<DatedQuote>,
    currency: Seq<char>,
    start: Timestamp,
    end: Timestamp,
)
    ensures
        history(points, latest, currency, start, end) is Err <==> points.len() > 0
            && merged_quotes(points, latest, currency, start, end).len() == 0,
        (exists|i: int| 0 <= i < points.len() && (#[trigger] points[i]).counts(start, end))
            ==> history(points, latest, currency, start, end) is Ok,
{
    if exists|i: int| 0 <= i < points.len() && (#[trigger] points[i]).counts(start, end) {
        let i = choose|i: int| 0 <= i < points.len() && (#[trigger] points[i]).counts(start, end);
        let counts = |point: DatedClose| point.counts(start, end);
        assert(counts(points[i]));
        assert(points.filter(counts).contains(points[i]));
        assert(chart_quotes(points, currency, start, end).len() > 0);
        assert(merged_quotes(points, latest, currency, start, end).len() > 0);
    }
}

/// `inner_start` to `inner_end` is part of `start` to `end`.
pub open spec fn narrower(
    inner_start: Timestamp,
    inner_end: Timestamp,
    start: Timestamp,
    end: Timestamp,
) -> bool {
    !inner_start.earlier(start) && !end.earlier(inner_end)
}

/// The quotes of a chart within a range are those quotes of any wider range that fall within it.
pub proof fn narrowing_selects_quotes(
    points: Seq<DatedClose>,
    currency: Seq<char>,
    inner_start: Timestamp,
    inner_end: Timestamp,
    start: Timestamp,
    end: Timestamp,
)
    requires
        narrower(inner_start, inner_end, start, end),
    ensures
        chart_quotes(points, currency, inner_start, inner_end) == chart_quotes(
            points,
            currency,
            start,
            end,
        ).filter(|quote: QuoteView| quote.timestamp.within(inner_start, inner_end)),
    decreases points.len(),
{
    reveal(Seq::filter);
    let within = |quote: QuoteView| quote.timestamp.within(inner_start, inner_end);
    if points.len() == 0 {
        assert(chart_quotes(points, currency, start, end).filter(within) =~= Seq::empty());
        assert(chart_quotes(points, currency, inner_start, inner_end) =~= Seq::empty());
    } else {
        let front = points.drop_last();
        let last = points.last();
        narrowing_selects_quotes(front, currency, inner_start, inner_end, start, end);
        let wide = chart_quotes(front, currency, start, end);
        let inner = chart_quotes(front, currency, inner_start, inner_end);
        if last.counts(start, end) {
            assert(chart_quotes(points, currency, start, end) =~= wide.push(last.quote(currency)));
            assert(wide.push(last.quote(currency)).drop_last() =~= wide);
        } else {
            assert(chart_quotes(points, currency, start, end) =~= wide);
        }
        if last.counts(inner_start, inner_end) {
            assert(last.counts(start, end));
            assert(chart_quotes(points, currency, inner_start, inner_end) =~= inner.push(
                last.quote(currency),
            ));
        } else {
            assert(chart_quotes(points, currency, inner_start, inner_end) =~= inner);
        }
    }
}

/// Narrowing the range keeps the quotes of a day that begins within the narrower range.
proof fn lemma_days_are_kept(
    points: Seq<DatedClose>,
    currency: Seq<char>,
    inner_start: Timestamp,
    inner_end: Timestamp,
    start: Timestamp,
    end: Timestamp,
    day: i32,
)
    requires
        narrower(inner_start, inner_end, start, end),
        Timestamp::midnight_of(day as int).within(inner_start, inner_end),
    ensures
        has_day(chart_quotes(points, currency, start, end), day) == has_day(
            chart_quotes(points, currency, inner_start, inner_end),
            day,
        ),
{
    let within = |quote: QuoteView| quote.timestamp.within(inner_start, inner_end);
    let wide = chart_quotes(points, currency, start, end);
    let inner = chart_quotes(points, currency, inner_start, inner_end);
    narrowing_selects_quotes(points, currency, inner_start, inner_end, start, end);
    lemma_chart_quotes_are_midnights(points, currency, start, end);
    if has_day(wide, day) {
        let i = choose|i: int| 0 <= i < wide.len() && (#[trigger] wide[i]).timestamp.day() == day;
        let j = choose|j: int|
            0 <= j < points.len() && (#[trigger] points[j]).counts(start, end) && wide[i]
                == points[j].quote(currency);
        time::midnight_lies_on_its_day(day, points[j].day->0);
        assert(within(wide[i]));
        assert(inner.contains(wide[i]));
        let k = choose|k: int| 0 <= k < inner.len() && inner[k] == wide[i];
        assert(inner[k].timestamp.day() == day);
    }
    if has_day(inner, day) {
        let k = choose|k: int| 0 <= k < inner.len() && (#[trigger] inner[k]).timestamp.day() == day;
        assert(inner.contains(inner[k]));
        wide.lemma_filter_contains_rev(within, inner[k]);
        let i = choose|i: int| 0 <= i < wide.len() && wide[i] == inner[k];
        assert(wide[i].timestamp.day() == day);
    }
}

/// The merged quotes within a range are those merged quotes of any wider range that fall within it,
/// the latest price among them; where there are none although the chart had points, the range holds
/// no data.
pub proof fn narrowing_selects_history(
    points: Seq<DatedClose>,
    latest: Option<DatedQuote>,
    currency: Seq<char>,
    inner_start: Timestamp,
    inner_end: Timestamp,
    start: Timestamp,
    end: Timestamp,
)
    requires
        narrower(inner_start, inner_end, start, end),
    ensures
        ({
            let selected = merged_quotes(points, latest, currency, start, end).filter(
                |quote: QuoteView| quote.timestamp.within(inner_start, inner_end),
            );
            &&& merged_quotes(points, latest, currency, inner_start, inner_end) == selected
            &&& history(points, latest, currency, inner_start, inner_end) == if selected.len() == 0
                && points.len() > 0 {
                Err(MarketDataErrorView::NoDataForRange)
            } else {
                Ok(selected)
            }
        }),
{
    let within = |quote: QuoteView| quote.timestamp.within(inner_start, inner_end);
    let wide = chart_quotes(points, currency, start, end);
    narrowing_selects_quotes(points, currency, inner_start, inner_end, start, end);
    if let Some(latest) = latest {
        if latest.close is Some && day_within(latest.day, start, end) {
            let day = latest.day->0;
            if within(latest.quote(currency)) {
                lemma_days_are_kept(points, currency, inner_start, inner_end, start, end, day);
            }
            reveal(Seq::filter);
            assert(wide.push(latest.quote(currency)).drop_last() =~= wide);
        }
    }
}

/// `event` is that of a dividend of the chart whose day begins within the range.
pub open spec fn is_paid<A>(
    points: Seq<DatedAmount<A>>,
    start: Timestamp,
    end: Timestamp,
    event: DividendEvent<A>,
) -> bool {
    exists|j: int|
        0 <= j < points.len() && day_within((#[trigger] points[j]).day, start, end) && event
            == points[j].event()
}

/// Every dividend in the answer falls within the range, and each dividend of the chart that does
/// is in the answer.
pub proof fn dividends_are_those_within_range<A>(
    points: Seq<DatedAmount<A>>,
    start: Timestamp,
    end: Timestamp,
)
    ensures
        forall|i: int|
            0 <= i < dividend_events(points, start, end).len() ==> is_paid(
                points,
                start,
                end,
                #[trigger] dividend_events(points, start, end)[i],
            ),
        forall|j: int|
            0 <= j < points.len() && day_within((#[trigger] points[j]).day, start, end)
                ==> dividend_events(points, start, end).contains(points[j].event()),
{
    let counts = |point: DatedAmount<A>| day_within(point.day, start, end);
    let kept = points.filter(counts);
    let events = dividend_events(points, start, end);
    assert forall|i: int| 0 <= i < events.len() implies is_paid(
        points,
        start,
        end,
        #[trigger] events[i],
    ) by {
        assert(counts(kept[i]));
        assert(kept.contains(kept[i]));
        points.lemma_filter_contains_rev(counts, kept[i]);
        let j = choose|j: int| 0 <= j < points.len() && points[j] == kept[i];
        assert(day_within(points[j].day, start, end));
        assert(events[i] == points[j].event());
    }
    assert forall|j: int|
        0 <= j < points.len() && day_within(
            (#[trigger] points[j]).day,
            start,
            end,
        ) implies events.contains(points[j].event()) by {
        assert(counts(points[j]));
        assert(kept.contains(points[j]));
        let i = choose|i: int| 0 <= i < kept.len() && kept[i] == points[j];
        assert(events[i] == points[j].event());
    }
}

/// The dividends within a range are those dividends of any wider range that fall within it.
pub proof fn narrowing_selects_dividends<A>(
    points: Seq<DatedAmount<A>>,
    inner_start: Timestamp,
    inner_end: Timestamp,
    start: Timestamp,
    end: Timestamp,
)
    requires
        narrower(inner_start, inner_end, start, end),
    ensures
        dividend_events(points, inner_start, inner_end) == dividend_events(
            points,
            start,
            end,
        ).filter(
            |event: DividendEvent<A>|
                (Timestamp { secs: event.date, nanos: 0 }).within(inner_start, inner_end),
        ),
    decreases points.len(),
{
    reveal(Seq::filter);
    let within = |event: DividendEvent<A>|
        (Timestamp { secs: event.date, nanos: 0 }).within(inner_start, inner_end);
    if points.len() == 0 {
        assert(dividend_events(points, start, end).filter(within) =~= Seq::empty());
        assert(dividend_events(points, inner_start, inner_end) =~= Seq::empty());
    } else {
        let front = points.drop_last();
        let last = points.last();
        narrowing_selects_dividends(front, inner_start, inner_end, start, end);
        let wide = dividend_events(front, start, end);
        let inner = dividend_events(front, inner_start, inner_end);
        if day_within(last.day, start, end) {
            assert(dividend_events(points, start, end) =~= wide.push(last.event()));
            assert(wide.push(last.event()).drop_last() =~= wide);
        } else {
            assert(dividend_events(points, start, end) =~= wide);
        }
        if day_within(last.day, inner_start, inner_end) {
            assert(day_within(last.day, start, end));
            assert(dividend_events(points, inner_start, inner_end) =~= inner.push(last.event()));
        } else {
            assert(dividend_events(points, inner_start, inner_end) =~= inner);
        }
    }
}

/// A latest quote whose date can be read does not depend on when it is read.
pub proof fn dated_quote_ignores_the_clock(
    response: QuoteResponse,
    currency: Seq<char>,
    day: i32,
    now: Timestamp,
    later: Timestamp,
)
    ensures
        latest_quote(response, currency, Some(day), now) == latest_quote(
            response,
            currency,
            Some(day),
            later,
        ),
{
}

/// A latest price is quoted as soon as it converts to a decimal: a date, a high or a low that
/// makes no sense is no failure.
pub proof fn latest_quote_fails_only_on_the_price(
    response: QuoteResponse,
    currency: Seq<char>,
    day: Option<i32>,
    now: Timestamp,
)
    ensures
        latest_quote(response, currency, day, now) is Ok
            <==> response.latest_quote.decimal is Some,
{
}

} // verus!
