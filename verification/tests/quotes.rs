use chrono::{DateTime, Datelike, NaiveDate, TimeZone, Utc};
use just_etf::models::{
    ChartFeature, ChartPoint, ChartResponse, DividendEvent, MarketDataError, Quote, QuoteLowHigh,
    QuoteResponse, RawValue,
};
use just_etf::quotes::{
    latest_quote_at, merge_history, select_dividends, DatedAmount, DatedClose, DatedQuote,
};
use just_etf::time::{day_of, Timestamp};
use just_etf::JustEtfProvider;
use rust_decimal::Decimal;

fn timestamp(time: DateTime<Utc>) -> Timestamp {
    Timestamp { secs: time.timestamp(), nanos: time.timestamp_subsec_nanos() }
}

fn at(year: i32, month: u32, day: u32) -> Timestamp {
    timestamp(Utc.with_ymd_and_hms(year, month, day, 0, 0, 0).unwrap())
}

fn raw(value: f64) -> RawValue {
    RawValue { decimal: Decimal::try_from(value).ok(), printed: value.to_string() }
}

fn response(value: f64, date: &str, low_high: Option<(f64, f64)>) -> QuoteResponse {
    QuoteResponse {
        latest_quote: raw(value),
        latest_quote_date: String::from(date),
        quote_low_high: low_high
            .map(|(low, high)| QuoteLowHigh { low: raw(low), high: raw(high) }),
    }
}

fn chart(points: &[(&str, f64)]) -> ChartResponse<f64> {
    ChartResponse {
        series: points
            .iter()
            .map(|(date, value)| ChartPoint {
                date: String::from(*date),
                value: Decimal::try_from(*value).ok(),
            })
            .collect(),
        features: None,
    }
}

fn close(time: Timestamp, value: &str) -> Quote {
    Quote {
        timestamp: time,
        open: None,
        high: None,
        low: None,
        close: value.parse().unwrap(),
        volume: None,
        currency: String::from("EUR"),
        source: String::from("JUST_ETF"),
    }
}

fn failure() -> Result<QuoteResponse, MarketDataError> {
    Err(MarketDataError::ProviderError {
        provider: String::from("JUST_ETF"),
        message: String::from("HTTP 500 Internal Server Error"),
    })
}

#[test]
fn midnights_are_those_of_the_calendar() {
    for (year, month, day) in [(1970, 1, 1), (1969, 12, 31), (2024, 2, 29), (1, 1, 1), (-5, 3, 1)] {
        let date = NaiveDate::from_ymd_opt(year, month, day).unwrap();
        let midnight = date.and_hms_opt(0, 0, 0).unwrap().and_utc();
        assert_eq!(Timestamp::midnight(date.num_days_from_ce()), timestamp(midnight));
    }
    assert_eq!(Timestamp::midnight(719163), Timestamp { secs: 0, nanos: 0 });
    assert_eq!(Timestamp::midnight(719162), Timestamp { secs: -86400, nanos: 0 });
}

#[test]
fn timestamps_compare_as_times_do() {
    let times = [
        Utc.timestamp_opt(-1, 999_999_999).unwrap(),
        Utc.timestamp_opt(0, 0).unwrap(),
        Utc.timestamp_opt(59, 1_500_000_000).unwrap(),
        Utc.timestamp_opt(60, 0).unwrap(),
    ];
    for a in times {
        for b in times {
            assert_eq!(timestamp(a).is_before(&timestamp(b)), a < b);
            for c in times {
                let within = timestamp(a).is_within(&timestamp(b), &timestamp(c));
                assert_eq!(within, !(a < b || a > c));
            }
        }
    }
}

#[test]
fn dates() {
    assert_eq!(day_of("1970-01-01"), Some(719163));
    assert_eq!(
        day_of("2024-02-29"),
        Some(NaiveDate::from_ymd_opt(2024, 2, 29).unwrap().num_days_from_ce())
    );
    for text in ["", "2023-02-29", "2024-13-01", "29.02.2024", "2024-02-29T00:00:00", "today"] {
        assert_eq!(day_of(text), None);
    }
}

#[test]
fn latest_quote_of_a_day() {
    let provider = JustEtfProvider::new();
    let quote = provider
        .get_latest_quote("USD", &response(101.25, "2024-03-15", Some((99.5, 102.75))))
        .unwrap();
    assert_eq!(quote.timestamp, at(2024, 3, 15));
    assert_eq!(quote.close, Decimal::new(10125, 2));
    assert_eq!(quote.low, Some(Decimal::new(995, 1)));
    assert_eq!(quote.high, Some(Decimal::new(10275, 2)));
    assert_eq!(quote.open, None);
    assert_eq!(quote.volume, None);
    assert_eq!(quote.currency, "USD");
    assert_eq!(quote.source, "JUST_ETF");
}

#[test]
fn latest_quote_without_a_date_is_of_now() {
    let provider = JustEtfProvider::new();
    let before = timestamp(Utc::now());
    let quote = provider.get_latest_quote("EUR", &response(10.0, "soon", None)).unwrap();
    let after = timestamp(Utc::now());
    assert!(quote.timestamp.is_within(&before, &after));
    assert_eq!(quote.high, None);
    assert_eq!(quote.low, None);
}

#[test]
fn latest_quote_that_is_no_decimal() {
    let provider = JustEtfProvider::new();
    assert_eq!(
        provider.get_latest_quote("EUR", &response(f64::NAN, "2024-03-15", None)),
        Err(MarketDataError::ValidationFailed {
            message: String::from("Failed to convert quote price NaN to decimal"),
        })
    );
    assert_eq!(
        provider.get_latest_quote("EUR", &response(f64::INFINITY, "soon", None)),
        Err(MarketDataError::ValidationFailed {
            message: String::from("Failed to convert quote price inf to decimal"),
        })
    );
}

#[test]
fn low_and_high_that_are_no_decimals_are_left_out() {
    let sent = response(10.0, "2024-03-15", Some((f64::INFINITY, 11.0)));
    let day = day_of("2024-03-15");
    let quote = latest_quote_at(&sent, "EUR", day, at(2000, 1, 1)).unwrap();
    assert_eq!(quote.low, None);
    assert_eq!(quote.high, Some(Decimal::from(11)));
    assert_eq!(quote.timestamp, at(2024, 3, 15));
    // The clock does not matter where there is a date, and is what counts where there is none.
    assert_eq!(latest_quote_at(&sent, "EUR", day, at(1999, 9, 9)), Ok(quote));
    let undated = latest_quote_at(&sent, "EUR", None, at(2000, 1, 1)).unwrap();
    assert_eq!(undated.timestamp, at(2000, 1, 1));
}

#[test]
fn history_keeps_what_is_in_range() {
    let provider = JustEtfProvider::new();
    let chart = chart(&[
        ("2024-03-11", 1.5),
        ("2024-03-12", 2.5),
        ("bad date", 9.0),
        ("2024-03-13", f64::NAN),
        ("2024-03-14", 3.5),
        ("2024-03-15", 4.5),
    ]);
    assert_eq!(
        provider.get_historical_quotes(
            "EUR",
            &chart,
            &failure(),
            at(2024, 3, 12),
            at(2024, 3, 14)
        ),
        Ok(vec![close(at(2024, 3, 12), "2.5"), close(at(2024, 3, 14), "3.5")])
    );
    // The ends of the range are points in time, not days.
    let just_after = Timestamp { secs: at(2024, 3, 12).secs, nanos: 1 };
    assert_eq!(
        provider.get_historical_quotes("EUR", &chart, &failure(), just_after, at(2024, 3, 14)),
        Ok(vec![close(at(2024, 3, 14), "3.5")])
    );
}

#[test]
fn history_reaches_the_latest_day() {
    let provider = JustEtfProvider::new();
    let chart = chart(&[("2024-03-11", 1.5), ("2024-03-12", 2.5)]);
    let latest = Ok(response(3.25, "2024-03-13", Some((3.0, 3.5))));
    let quotes = provider
        .get_historical_quotes("EUR", &chart, &latest, at(2024, 3, 12), at(2024, 3, 31))
        .unwrap();
    let mut added = close(at(2024, 3, 13), "3.25");
    added.low = Some(Decimal::from(3));
    added.high = Some(Decimal::new(35, 1));
    assert_eq!(quotes, vec![close(at(2024, 3, 12), "2.5"), added]);
}

#[test]
fn latest_price_does_not_repeat_a_day() {
    let provider = JustEtfProvider::new();
    let chart = chart(&[("2024-03-12", 2.5), ("2024-03-11", 1.5)]);
    let latest = Ok(response(9.0, "2024-03-12", None));
    assert_eq!(
        provider.get_historical_quotes("EUR", &chart, &latest, at(2024, 3, 1), at(2024, 3, 31)),
        Ok(vec![close(at(2024, 3, 12), "2.5"), close(at(2024, 3, 11), "1.5")])
    );
}

#[test]
fn latest_price_out_of_range_is_left_out() {
    let provider = JustEtfProvider::new();
    let chart = chart(&[("2024-03-11", 1.5)]);
    for latest in [
        response(9.0, "2024-04-01", None),
        response(9.0, "2024-02-29", None),
        response(9.0, "soon", None),
        response(f64::INFINITY, "2024-03-12", None),
    ] {
        assert_eq!(
            provider.get_historical_quotes(
                "EUR",
                &chart,
                &Ok(latest),
                at(2024, 3, 1),
                at(2024, 3, 31)
            ),
            Ok(vec![close(at(2024, 3, 11), "1.5")])
        );
    }
}

#[test]
fn history_without_quotes() {
    let provider = JustEtfProvider::new();
    let points = chart(&[("2024-03-11", 1.5)]);
    assert_eq!(
        provider.get_historical_quotes(
            "EUR",
            &points,
            &failure(),
            at(2025, 1, 1),
            at(2025, 12, 31)
        ),
        Err(MarketDataError::NoDataForRange)
    );
    assert_eq!(
        provider.get_historical_quotes(
            "EUR",
            &chart(&[]),
            &failure(),
            at(2025, 1, 1),
            at(2025, 12, 31)
        ),
        Ok(vec![])
    );
    let latest = Ok(response(2.0, "2025-02-03", None));
    assert_eq!(
        provider.get_historical_quotes("EUR", &points, &latest, at(2025, 1, 1), at(2025, 12, 31)),
        Ok(vec![close(at(2025, 2, 3), "2")])
    );
}

#[test]
fn narrower_ranges_select_quotes() {
    let points: Vec<DatedClose> = (0..20)
        .map(|i| DatedClose {
            day: if i % 7 == 3 { None } else { Some(738000 + (i * 5) % 20) },
            close: if i % 6 == 4 { None } else { Some(Decimal::from(i)) },
        })
        .collect();
    let (start, end) = (Timestamp::midnight(738000), Timestamp::midnight(738020));
    let (inner_start, inner_end) = (Timestamp::midnight(738004), Timestamp::midnight(738011));
    let price = Some(Decimal::from(99));
    let latest = |day: i32| Some(DatedQuote { day: Some(day), close: price, high: price, low: None });
    // None, one on a day of its own, one on a day of the chart, one out of the narrower range.
    for (latest, added) in
        [(None, 0), (latest(738008), 1), (latest(738005), 0), (latest(738017), 0)]
    {
        let wide = merge_history(&points, &latest, "EUR", start, end).unwrap();
        let inner = merge_history(&points, &latest, "EUR", inner_start, inner_end).unwrap();
        let selected: Vec<Quote> = wide
            .into_iter()
            .filter(|quote| quote.timestamp.is_within(&inner_start, &inner_end))
            .collect();
        assert_eq!(inner, selected);
        assert_eq!(inner.iter().filter(|quote| Some(quote.close) == price).count(), added);
        assert!(inner.len() > added);
    }
}

#[test]
fn merging_dated_prices() {
    let price = Some(Decimal::from(7));
    let points = vec![DatedClose { day: Some(738000), close: price }];
    let latest = Some(DatedQuote { day: Some(738001), close: price, high: price, low: None });
    let (start, end) = (Timestamp::midnight(738000), Timestamp::midnight(738001));
    let quotes = merge_history(&points, &latest, "CHF", start, end).unwrap();
    assert_eq!(quotes.len(), 2);
    assert_eq!(quotes[0].timestamp, start);
    assert_eq!(quotes[1].timestamp, end);
    assert_eq!(quotes[1].high, price);
    assert_eq!(quotes[1].low, None);
    assert_eq!(quotes[1].currency, "CHF");
}

#[test]
fn dividends_in_range() {
    let provider = JustEtfProvider::new();
    let point = |date: &str, value: f64| ChartPoint { date: String::from(date), value };
    let mut sent = chart(&[]);
    assert_eq!(provider.get_dividends(&sent, at(2024, 1, 1), at(2024, 12, 31)), vec![]);
    sent.features = Some(ChartFeature {
        dividends: vec![
            point("2023-12-31", 0.1),
            point("2024-01-01", 0.25),
            point("never", 0.3),
            point("2024-12-31", f64::INFINITY),
            point("2025-01-01", 0.5),
        ],
    });
    assert_eq!(
        provider.get_dividends(&sent, at(2024, 1, 1), at(2024, 12, 31)),
        vec![
            DividendEvent { amount: 0.25, date: at(2024, 1, 1).secs },
            DividendEvent { amount: f64::INFINITY, date: at(2024, 12, 31).secs },
        ]
    );
}

#[test]
fn selecting_dividends() {
    let points: Vec<DatedAmount<i32>> = vec![
        DatedAmount { day: Some(719163), amount: 1 },
        DatedAmount { day: None, amount: 2 },
        DatedAmount { day: Some(719164), amount: 3 },
    ];
    let (start, end) = (Timestamp::midnight(719163), Timestamp::midnight(719164));
    assert_eq!(
        select_dividends(&points, start, end),
        vec![DividendEvent { amount: 1, date: 0 }, DividendEvent { amount: 3, date: 86400 }]
    );
    assert_eq!(
        select_dividends(&points, end, end),
        vec![DividendEvent { amount: 3, date: 86400 }]
    );
    assert_eq!(select_dividends(&points, end, start), vec![]);
}
