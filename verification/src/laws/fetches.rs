//! How requests end, event by event.

use vstd::prelude::*;
use vstd::string::*;

use crate::fetch;
use crate::fetch::{Endpoint, FetchEvent, FetchStepView};
use crate::models::MarketDataErrorView;

verus! {

/// A failure of this provider.
pub open spec fn failure<T>(message: Seq<char>) -> FetchStepView<T> {
    FetchStepView::Failed(
        MarketDataErrorView::ProviderError { provider: "JUST_ETF"@, message },
    )
}

/// A request that could not be sent is a failure that tells what was asked for, and why.
pub proof fn requests_that_are_not_sent_tell_why<T>(isin: String, reason: String)
    ensures
        fetch::next_step(Endpoint::SearchPage, FetchEvent::<T>::SendFailed(reason)) == failure::<T>(
            "Failed to load search page: "@ + reason@,
        ),
        fetch::next_step(Endpoint::Search, FetchEvent::<T>::SendFailed(reason)) == failure::<T>(
            "Search request failed: "@ + reason@,
        ),
        fetch::next_step(Endpoint::Quote, FetchEvent::<T>::SendFailed(reason)) == failure::<T>(
            "HTTP request failed: "@ + reason@,
        ),
        fetch::next_step(Endpoint::Chart, FetchEvent::<T>::SendFailed(reason)) == failure::<T>(
            "HTTP request failed: "@ + reason@,
        ),
        fetch::next_step(
            Endpoint::ProfilePage { isin },
            FetchEvent::<T>::SendFailed(reason),
        ) == failure::<T>("HTTP request failed: "@ + reason@),
        fetch::next_step(Endpoint::Table, FetchEvent::<T>::SendFailed(reason)) == failure::<T>(
            "AJAX request failed: "@ + reason@,
        ),
{
}

/// A body that could not be read is a failure that tells what was asked for, and why.
pub proof fn bodies_that_are_not_read_tell_why<T>(isin: String, reason: String)
    ensures
        fetch::next_step(Endpoint::SearchPage, FetchEvent::<T>::BodyFailed(reason)) == failure::<T>(
            "Failed to read search page: "@ + reason@,
        ),
        fetch::next_step(Endpoint::Search, FetchEvent::<T>::BodyFailed(reason)) == failure::<T>(
            "Search JSON parse error: "@ + reason@,
        ),
        fetch::next_step(Endpoint::Quote, FetchEvent::<T>::BodyFailed(reason)) == failure::<T>(
            "JSON parse error: "@ + reason@,
        ),
        fetch::next_step(Endpoint::Chart, FetchEvent::<T>::BodyFailed(reason)) == failure::<T>(
            "JSON parse error: "@ + reason@,
        ),
        fetch::next_step(
            Endpoint::ProfilePage { isin },
            FetchEvent::<T>::BodyFailed(reason),
        ) == failure::<T>("Failed to read profile page: "@ + reason@),
        fetch::next_step(Endpoint::Table, FetchEvent::<T>::BodyFailed(reason)) == failure::<T>(
            "Failed to read AJAX response: "@ + reason@,
        ),
{
}

/// An answer with a status from 200 to 299 has its body read, whatever was asked for. One with any
/// other status is refused, with the status, where funds, quotes, charts or profile pages were
/// asked for; search pages and tables have their bodies read all the same.
pub proof fn statuses_other_than_2xx_are_refused<T>(isin: String, status: u16)
    ensures
        ({
            let event = FetchEvent::<T>::Answered(status);
            let printed = fetch::status_text(status);
            let succeeds = 200 <= status < 300;
            let profile_page = Endpoint::ProfilePage { isin };
            &&& fetch::next_step(Endpoint::SearchPage, event) is ReadBody
            &&& fetch::next_step(Endpoint::Table, event) is ReadBody
            &&& succeeds ==> fetch::next_step(Endpoint::Search, event) is ReadBody
            &&& succeeds ==> fetch::next_step(Endpoint::Quote, event) is ReadBody
            &&& succeeds ==> fetch::next_step(Endpoint::Chart, event) is ReadBody
            &&& succeeds ==> fetch::next_step(profile_page, event) is ReadBody
            &&& !succeeds ==> fetch::next_step(Endpoint::Search, event) == failure::<T>(
                "Search returned HTTP "@ + printed,
            )
            &&& !succeeds ==> fetch::next_step(Endpoint::Quote, event) == failure::<T>(
                "HTTP "@ + printed,
            )
            &&& !succeeds ==> fetch::next_step(Endpoint::Chart, event) == failure::<T>(
                "HTTP "@ + printed,
            )
            &&& !succeeds ==> fetch::next_step(profile_page, event) == FetchStepView::<T>::Failed(
                MarketDataErrorView::SymbolNotFound(
                    "ETF profile page returned HTTP "@ + printed + " for ISIN "@ + isin@,
                ),
            )
        }),
{
}

/// A body that was read is what the request ends with, whatever was asked for.
pub proof fn bodies_are_handed_on_as_they_are<T>(endpoint: Endpoint, body: T)
    ensures
        fetch::next_step(endpoint, FetchEvent::Body(body)) == FetchStepView::Done(body),
{
}

/// A status that is refused is told by its printed form.
pub proof fn refusals_tell_the_status(isin: String, status: Seq<char>)
    ensures
        Endpoint::Search.refusal(status) == (MarketDataErrorView::ProviderError {
            provider: "JUST_ETF"@,
            message: "Search returned HTTP "@ + status,
        }),
        Endpoint::Quote.refusal(status) == (MarketDataErrorView::ProviderError {
            provider: "JUST_ETF"@,
            message: "HTTP "@ + status,
        }),
        Endpoint::Chart.refusal(status) == (MarketDataErrorView::ProviderError {
            provider: "JUST_ETF"@,
            message: "HTTP "@ + status,
        }),
        (Endpoint::ProfilePage { isin }).refusal(status) == MarketDataErrorView::SymbolNotFound(
            "ETF profile page returned HTTP "@ + status + " for ISIN "@ + isin@,
        ),
{
}

/// The statuses that may come are those with three digits.
pub proof fn statuses_have_three_digits(status: u16)
    ensures
        fetch::is_status(status) <==> 100 <= status < 1000,
{
}

} // verus!
