//! What a history holds of the chart and of the latest quote that it is made from.

use rust_decimal::Decimal;
use vstd::prelude::*;

use crate::laws::selection;
use crate::laws::times;
use crate::models::{
    ChartPoint, MarketDataError, MarketDataErrorView, QuoteResponse, QuoteView,
};
use crate::quotes;
use crate::quotes::{DatedClose, DatedQuote};
use crate::time;
use crate::time::Timestamp;

verus! {

/// The price of a day: it is quoted at the second at which the day begins, without an opening
/// price and a volume, and names this provider as its source.
pub open spec fn daily_quote(
    day: int,
    high: Option<Decimal>,
    low: Option<Decimal>,
    close: Decimal,
    currency: Seq<char>,
) -> QuoteView {
    QuoteView {
        timestamp: Timestamp { secs: times::first_second(day) as i64, nanos: 0 },
        open: None,
        high,
        low,
        close,
        volume: None,
        currency,
        source: "JUST_ETF"@,
    }
}

/// The chart has a price at position `i` that is known and whose date names a day that begins
/// within the range.
pub open spec fn shows(
    series: Seq<ChartPoint<Option<Decimal>>>,
    start: Timestamp,
    end: Timestamp,
    i: int,
) -> bool {
    series[i].value is Some && times::dated_within(series[i].date@, start, end)
}

/// The latest price is one that the chart does not show: it is known, its date names a day that
/// begins within the range, and none of the chart's prices that are shown is of that day.
pub open spec fn is_news(
    latest: Result<QuoteResponse, MarketDataError>,
    series: Seq<ChartPoint<Option<Decimal>>>,
    start: Timestamp,
    end: Timestamp,
) -> bool {
    latest matches Ok(response) && {
        &&& response.latest_quote.decimal is Some
        &&& times::dated_within(response.latest_quote_date@, start, end)
        &&& forall|i: int|
            0 <= i < series.len() && #[trigger] shows(series, start, end, i) ==> times::named_day(
                series[i].date@,
            ) != times::named_day(response.latest_quote_date@)
    }
}

/// The highest price that a response tells of.
pub open spec fn told_high(response: QuoteResponse) -> Option<Decimal> {
    if response.quote_low_high is Some {
        response.quote_low_high->0.high.decimal
    } else {
        None
    }
}

/// The lowest price that a response tells of.
pub open spec fn told_low(response: QuoteResponse) -> Option<Decimal> {
    if response.quote_low_high is Some {
        response.quote_low_high->0.low.decimal
    } else {
        None
    }
}

/// The points of a chart are all taken, each with the day that its date names and its price.
pub proof fn all_points_are_dated(series: Seq<ChartPoint<Option<Decimal>>>)
    ensures
        quotes::dated_series(series).len() == series.len(),
        forall|i: int|
            0 <= i < series.len() ==> {
                &&& (#[trigger] quotes::dated_series(series)[i]).day == times::named_day(
                    series[i].date@,
                )
                &&& quotes::dated_series(series)[i].close == series[i].value
            },
{
}

/// A history holds a quote of each price of the chart that is known and falls within the range, in
/// the chart's order, and after them, where it is news, one of the latest price, which alone has a
/// high and a low. Where that is nothing at all, though the chart has points, there is no data for
/// the range. `picked` are the positions of the chart that the history shows.
pub proof fn history_holds_what_the_chart_shows(
    series: Seq<ChartPoint<Option<Decimal>>>,
    latest: Result<QuoteResponse, MarketDataError>,
    currency: Seq<char>,
    start: Timestamp,
    end: Timestamp,
) -> (picked: Seq<int>)
    ensures
        selection::picks(picked, series.len(), |i: int| shows(series, start, end, i)),
        ({
            let answer = quotes::history(
                quotes::dated_series(series),
                quotes::dated_latest(latest),
                currency,
                start,
                end,
            );
            let added: int = if is_news(latest, series, start, end) {
                1
            } else {
                0
            };
            match answer {
                Ok(quotes) => {
                    &&& series.len() == 0 || picked.len() + added > 0
                    &&& quotes.len() == picked.len() + added
                    &&& forall|k: int|
                        0 <= k < picked.len() ==> #[trigger] quotes[k] == daily_quote(
                            times::named_day(series[picked[k]].date@)->0 as int,
                            None,
                            None,
                            series[picked[k]].value->0,
                            currency,
                        )
                    &&& added == 1 ==> quotes[quotes.len() - 1] == daily_quote(
                        times::named_day(latest->Ok_0.latest_quote_date@)->0 as int,
                        told_high(latest->Ok_0),
                        told_low(latest->Ok_0),
                        latest->Ok_0.latest_quote.decimal->0,
                        currency,
                    )
                },
                Err(error) => {
                    &&& series.len() > 0 && picked.len() + added == 0
                    &&& error == MarketDataErrorView::NoDataForRange
                },
            }
        }),
{
    let points = quotes::dated_series(series);
    let keep = |point: DatedClose| point.counts(start, end);
    let make = |point: DatedClose| point.quote(currency);
    let picked = selection::lemma_filtered(points, keep, make);
    let listed = quotes::chart_quotes(points, currency, start, end);
    assert(listed == picked.map_values(|i: int| make(points[i])));
    assert forall|i: int| 0 <= i < series.len() implies keep(#[trigger] points[i]) == shows(
        series,
        start,
        end,
        i,
    ) by {
        if let Some(day) = points[i].day {
            times::lemma_begins_within(day, start, end);
        }
    }
    let counts = |i: int| keep(points[i]);
    let shown = |i: int| shows(series, start, end, i);
    assert(selection::picks(picked, series.len(), counts));
    assert forall|k: int| 0 <= k < picked.len() implies shown(#[trigger] picked[k]) by {
        assert(counts(picked[k]));
    }
    assert forall|i: int| 0 <= i < series.len() && #[trigger] shown(i) implies picked.contains(
        i,
    ) by {
        assert(counts(i));
    }
    assert forall|k: int| 0 <= k < picked.len() implies #[trigger] listed[k] == daily_quote(
        times::named_day(series[picked[k]].date@)->0 as int,
        None,
        None,
        series[picked[k]].value->0,
        currency,
    ) by {
        assert(shown(picked[k]));
        times::midnights_are_whole_days(points[picked[k]].day->0);
    }
    if let Ok(response) = latest {
        if response.latest_quote.decimal is Some && times::dated_within(
            response.latest_quote_date@,
            start,
            end,
        ) {
            let day = times::named_day(response.latest_quote_date@)->0;
            times::lemma_begins_within(day, start, end);
            times::midnights_are_whole_days(day);
            if quotes::has_day(listed, day) {
                let k = choose|k: int|
                    0 <= k < listed.len() && (#[trigger] listed[k]).timestamp.day() == day;
                assert(shown(picked[k]));
                time::midnight_lies_on_its_day(day, points[picked[k]].day->0);
                assert(shows(series, start, end, picked[k]));
                assert(!is_news(latest, series, start, end));
            } else {
                assert forall|i: int|
                    0 <= i < series.len() && #[trigger] shows(
                        series,
                        start,
                        end,
                        i,
                    ) implies times::named_day(series[i].date@) != times::named_day(
                    response.latest_quote_date@,
                ) by {
                    assert(shown(i));
                    assert(picked.contains(i));
                    let k = choose|k: int| 0 <= k < picked.len() && picked[k] == i;
                    time::midnight_lies_on_its_day(day, points[i].day->0);
                    time::midnight_lies_on_its_day(points[i].day->0, day);
                    assert(listed[k].timestamp == Timestamp::midnight_of(points[i].day->0 as int));
                    assert(listed[k].timestamp.day() == points[i].day->0);
                }
                assert(is_news(latest, series, start, end));
            }
        } else if let Some(day) = times::named_day(response.latest_quote_date@) {
            times::lemma_begins_within(day, start, end);
        }
    }
    picked
}

/// The same of prices whose days are known already: the history holds a quote of each that is
/// known and whose day begins within the range, in their order, and then at most the latest one.
pub proof fn merged_history_holds_the_dated_prices(
    points: Seq<DatedClose>,
    latest: Option<DatedQuote>,
    currency: Seq<char>,
    start: Timestamp,
    end: Timestamp,
) -> (picked: Seq<int>)
    ensures
        selection::picks(
            picked,
            points.len(),
            |i: int|
                points[i].close is Some && (points[i].day matches Some(day)
                    && times::begins_within(day as int, start, end)),
        ),
        ({
            let merged = quotes::merged_quotes(points, latest, currency, start, end);
            let added = latest matches Some(quote) && quote.close is Some && (
            quote.day matches Some(day) && times::begins_within(day as int, start, end)
                && forall|k: int| 0 <= k < picked.len() ==> points[#[trigger] picked[k]].day
                != Some(day));
            &&& merged.len() == picked.len() + if added {
                1int
            } else {
                0
            }
            &&& forall|k: int|
                0 <= k < picked.len() ==> #[trigger] merged[k] == daily_quote(
                    points[picked[k]].day->0 as int,
                    None,
                    None,
                    points[picked[k]].close->0,
                    currency,
                )
            &&& added ==> merged[picked.len() as int] == daily_quote(
                latest->0.day->0 as int,
                latest->0.high,
                latest->0.low,
                latest->0.close->0,
                currency,
            )
            &&& quotes::history(points, latest, currency, start, end) == if merged.len() == 0
                && points.len() > 0 {
                Err(MarketDataErrorView::NoDataForRange)
            } else {
                Ok(merged)
            }
        }),
{
    let keep = |point: DatedClose| point.counts(start, end);
    let make = |point: DatedClose| point.quote(currency);
    let picked = selection::lemma_filtered(points, keep, make);
    let listed = quotes::chart_quotes(points, currency, start, end);
    assert(listed == picked.map_values(|i: int| make(points[i])));
    let counts = |i: int| keep(points[i]);
    let shown = |i: int|
        points[i].close is Some && (points[i].day matches Some(day) && times::begins_within(
            day as int,
            start,
            end,
        ));
    assert forall|i: int| #[trigger] counts(i) == shown(i) by {
        if let Some(day) = points[i].day {
            times::lemma_begins_within(day, start, end);
        }
    }
    assert forall|i: int| 0 <= i < points.len() && #[trigger] shown(i) implies picked.contains(
        i,
    ) by {
        assert(counts(i));
    }
    assert forall|k: int| 0 <= k < picked.len() implies shown(#[trigger] picked[k]) by {
        assert(counts(picked[k]));
    }
    assert forall|k: int| 0 <= k < picked.len() implies #[trigger] listed[k] == daily_quote(
        points[picked[k]].day->0 as int,
        None,
        None,
        points[picked[k]].close->0,
        currency,
    ) by {
        assert(shown(picked[k]));
        times::midnights_are_whole_days(points[picked[k]].day->0);
    }
    if let Some(quote) = latest {
        if let Some(day) = quote.day {
            times::lemma_begins_within(day, start, end);
            times::midnights_are_whole_days(day);
            if quotes::has_day(listed, day) {
                let k = choose|k: int|
                    0 <= k < listed.len() && (#[trigger] listed[k]).timestamp.day() == day;
                assert(shown(picked[k]));
                time::midnight_lies_on_its_day(day, points[picked[k]].day->0);
                assert(points[picked[k]].day == Some(day));
            } else {
                assert forall|k: int| 0 <= k < picked.len() implies points[#[trigger] picked[k]].day
                    != Some(day) by {
                    assert(shown(picked[k]));
                    assert(listed[k].timestamp == Timestamp::midnight_of(
                        points[picked[k]].day->0 as int,
                    ));
                    time::midnight_lies_on_its_day(points[picked[k]].day->0, day);
                    assert(listed[k].timestamp.day() == points[picked[k]].day->0);
                }
            }
        }
    }
    picked
}

} // verus!
