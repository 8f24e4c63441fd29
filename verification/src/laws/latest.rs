//! What the latest quote is in terms of the response that it is read from.

use vstd::prelude::*;

use crate::laws::history;
use crate::laws::times;
use crate::models::{MarketDataErrorView, QuoteResponse, QuoteView};
use crate::quotes;
use crate::time::Timestamp;

verus! {

/// A price that converts to a decimal is quoted with the high and the low that convert, in the
/// currency asked for: at the beginning of its day, or at the time of reading where the date names
/// none.
pub proof fn latest_quotes_tell_what_was_sent(
    response: QuoteResponse,
    currency: Seq<char>,
    day: Option<i32>,
    now: Timestamp,
)
    requires
        response.latest_quote.decimal is Some,
    ensures
        ({
            let made = quotes::latest_quote(response, currency, day, now);
            let price = response.latest_quote.decimal->0;
            let high = history::told_high(response);
            let low = history::told_low(response);
            &&& day matches Some(day) ==> made == Ok::<QuoteView, MarketDataErrorView>(
                history::daily_quote(day as int, high, low, price, currency),
            )
            &&& day is None ==> made == Ok::<QuoteView, MarketDataErrorView>(
                QuoteView {
                    timestamp: now,
                    ..history::daily_quote(0, high, low, price, currency)
                },
            )
        }),
{
    if let Some(day) = day {
        times::midnights_are_whole_days(day);
    }
}

/// The clock counts just where the price converts to a decimal and the date names no day.
pub proof fn undated_prices_need_the_clock(response: QuoteResponse)
    ensures
        quotes::needs_the_clock(response) <==> response.latest_quote.decimal is Some
            && times::named_day(response.latest_quote_date@) is None,
{
}

/// A price that converts to no decimal is refused, in whatever currency and on whatever day, with
/// a message that repeats it as it was printed.
pub proof fn prices_that_do_not_convert_are_refused(
    response: QuoteResponse,
    currency: Seq<char>,
    day: Option<i32>,
    now: Timestamp,
)
    requires
        response.latest_quote.decimal is None,
    ensures
        quotes::latest_quote(response, currency, day, now) == Err::<
            QuoteView,
            MarketDataErrorView,
        >(
            MarketDataErrorView::ValidationFailed {
                message: "Failed to convert quote price "@ + response.latest_quote.printed@
                    + " to decimal"@,
            },
        ),
{
}

} // verus!
