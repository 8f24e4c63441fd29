//! The contents of the data that the library takes and gives: each field is shown as it is.

use vstd::prelude::*;

use crate::fetch::{FetchStep, FetchStepView};
use crate::models;
use crate::models::{
    AssetProfile, MarketDataError, MarketDataErrorView, Quote, SearchResult,
};
use crate::provider::QuoteTarget;
use crate::requests::HttpRequest;
use crate::scheduler::{SchedulerAction, SchedulerActionView};

verus! {

/// The content of a text that may be missing is the text's, and missing only with it.
pub open spec fn shows_text(shown: Option<Seq<char>>, text: Option<String>) -> bool {
    match text {
        Some(text) => shown == Some(text@),
        None => shown is None,
    }
}

/// Quotes are shown with all their fields.
pub proof fn quotes_are_shown_as_they_are(quote: Quote)
    ensures
        quote.deep_view().timestamp == quote.timestamp,
        quote.deep_view().open == quote.open,
        quote.deep_view().high == quote.high,
        quote.deep_view().low == quote.low,
        quote.deep_view().close == quote.close,
        quote.deep_view().volume == quote.volume,
        quote.deep_view().currency == quote.currency@,
        quote.deep_view().source == quote.source@,
{
}

/// Search results are shown with all their fields.
pub proof fn search_results_are_shown_as_they_are(result: SearchResult)
    ensures
        result.deep_view().symbol == result.symbol@,
        result.deep_view().name == result.name@,
        result.deep_view().exchange == result.exchange@,
        shows_text(result.deep_view().exchange_mic, result.exchange_mic),
        shows_text(result.deep_view().exchange_name, result.exchange_name),
        result.deep_view().asset_type == result.asset_type@,
        shows_text(result.deep_view().currency, result.currency),
        shows_text(result.deep_view().data_source, result.data_source),
{
}

/// Profiles are shown with all their fields.
pub proof fn profiles_are_shown_as_they_are(profile: AssetProfile)
    ensures
        shows_text(profile.deep_view().source, profile.source),
        shows_text(profile.deep_view().name, profile.name),
        shows_text(profile.deep_view().quote_type, profile.quote_type),
        shows_text(profile.deep_view().description, profile.description),
        shows_text(profile.deep_view().country, profile.country),
        shows_text(profile.deep_view().countries, profile.countries),
        shows_text(profile.deep_view().sectors, profile.sectors),
        shows_text(profile.deep_view().isin, profile.isin),
        shows_text(profile.deep_view().dividend_yield, profile.dividend_yield),
{
}

/// Errors are shown as what they are, with what they say.
pub proof fn errors_are_shown_as_they_are(error: MarketDataError)
    ensures
        match error {
            MarketDataError::UnsupportedAssetType(kind) => error.deep_view()
                == MarketDataErrorView::UnsupportedAssetType(kind@),
            MarketDataError::SymbolNotFound(message) => error.deep_view()
                == MarketDataErrorView::SymbolNotFound(message@),
            MarketDataError::NoDataForRange => error.deep_view()
                == MarketDataErrorView::NoDataForRange,
            MarketDataError::ValidationFailed { message } => error.deep_view() == (
            MarketDataErrorView::ValidationFailed { message: message@ }),
            MarketDataError::ProviderError { provider, message } => error.deep_view() == (
            MarketDataErrorView::ProviderError { provider: provider@, message: message@ }),
            MarketDataError::NotSupported { operation, provider } => error.deep_view() == (
            MarketDataErrorView::NotSupported { operation: operation@, provider: provider@ }),
        },
{
}

/// The outcome of an answer is its value or its error.
pub proof fn outcomes_are_values_or_errors<T: DeepView>(answer: Result<T, MarketDataError>)
    ensures
        match answer {
            Ok(value) => models::outcome(answer) == Ok::<T::V, MarketDataErrorView>(
                value.deep_view(),
            ),
            Err(error) => models::outcome(answer) == Err::<T::V, MarketDataErrorView>(
                error.deep_view(),
            ),
        },
{
}

/// What a request is about is shown as it is.
pub proof fn targets_are_shown_as_they_are(target: QuoteTarget)
    ensures
        target.deep_view().isin == target.isin@,
        target.deep_view().currency == target.currency@,
{
}

/// Requests are shown with all their fields, each header and each field of the form in its place.
pub proof fn requests_are_shown_as_they_are(request: HttpRequest)
    ensures
        request.deep_view().client == request.client,
        request.deep_view().url == request.url@,
        request.deep_view().headers.len() == request.headers@.len(),
        forall|i: int|
            0 <= i < request.headers@.len() ==> #[trigger] request.deep_view().headers[i] == (
                request.headers@[i].0@,
                request.headers@[i].1@,
            ),
        request.deep_view().form is Some <==> request.form is Some,
        request.form matches Some(form) ==> {
            &&& request.deep_view().form->0.len() == form@.len()
            &&& forall|i: int|
                0 <= i < form@.len() ==> #[trigger] request.deep_view().form->0[i] == (
                    form@[i].0@,
                    form@[i].1@,
                )
        },
{
}

/// A step of a request is shown as what it is, with the body or the error that it ends with.
pub proof fn steps_are_shown_as_they_are<T>(step: FetchStep<T>)
    ensures
        match step {
            FetchStep::ReadBody => step.content() == FetchStepView::<T>::ReadBody,
            FetchStep::Finish(Ok(body)) => step.content() == FetchStepView::Done(body),
            FetchStep::Finish(Err(error)) => step.content() == FetchStepView::<T>::Failed(
                error.deep_view(),
            ),
        },
{
}

/// An action of the schedule is shown as what it is, with its delay, its counts and its ids.
pub proof fn actions_are_shown_as_they_are(action: SchedulerAction)
    ensures
        match action {
            SchedulerAction::Sleep { delay, completed } => {
                &&& action.deep_view() matches SchedulerActionView::Sleep {
                    delay: shown,
                    completed: counts,
                }
                &&& shown == delay
                &&& counts is Some <==> completed is Some
                &&& completed matches Some(summary) ==> counts->0 == (
                    summary.enriched as nat,
                    summary.failed as nat,
                )
            },
            SchedulerAction::ListAssets => action.deep_view() is ListAssets,
            SchedulerAction::Enrich { ids } => {
                &&& action.deep_view() matches SchedulerActionView::Enrich { ids: shown }
                &&& shown.len() == ids@.len()
                &&& forall|i: int| 0 <= i < ids@.len() ==> #[trigger] shown[i] == ids@[i]@
            },
        },
{
}

} // verus!
