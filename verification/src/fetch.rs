//! How a request ends.
//!
//! A request is sent, answered with a status, and its body is read. [`fetch_step`] takes what has
//! happened and says what is next: to read the body, or to finish.

use reqwest::StatusCode;
use vstd::prelude::*;
use vstd::string::*;

use crate::models::{MarketDataError, MarketDataErrorView};
use crate::provider::PROVIDER_ID;

verus! {

/// What a request asks for.
#[derive(Debug, PartialEq, Eq)]
pub enum Endpoint {
    /// The page on which a search begins.
    SearchPage,
    /// The funds that match a query.
    Search,
    /// The latest quote of a fund.
    Quote,
    /// The chart of a fund.
    Chart,
    /// The profile page of a fund.
    ProfilePage { isin: String },
    /// A table of a profile page.
    Table,
}

/// What has happened to a request. `T` is the type of the body.
#[derive(Debug, PartialEq, Eq)]
pub enum FetchEvent<T> {
    /// It could not be sent, or was not answered, for the printed reason.
    SendFailed(String),
    /// It was answered with a status.
    Answered(u16),
    /// Its body could not be read, for the printed reason.
    BodyFailed(String),
    /// Its body was read.
    Body(T),
}

/// What is to be done about a request.
#[derive(Debug, PartialEq, Eq)]
pub enum FetchStep<T> {
    /// Read the body.
    ReadBody,
    /// Finish, with the body or a failure.
    Finish(Result<T, MarketDataError>),
}

/// The content of a [`FetchStep`].
pub enum FetchStepView<T> {
    ReadBody,
    Done(T),
    Failed(MarketDataErrorView),
}

impl<T> FetchStep<T> {
    /// The content of the step.
    pub open spec fn content(self) -> FetchStepView<T> {
        match self {
            FetchStep::ReadBody => FetchStepView::ReadBody,
            FetchStep::Finish(Ok(body)) => FetchStepView::Done(body),
            FetchStep::Finish(Err(error)) => FetchStepView::Failed(error.deep_view()),
        }
    }
}

/// The printed form of an HTTP status: its number and what it is commonly called.
pub uninterp spec fn status_text(status: u16) -> Seq<char>;

/// `status` is the number of an HTTP status, which has three digits.
pub open spec fn is_status(status: u16) -> bool {
    100 <= status <= 999
}

/// Prints a status that `reqwest::StatusCode::from_u16` accepts. Trusted: the printed form is a
/// function of the number alone, and is named [`status_text`].
#[verifier::external_body]
fn print_status(status: u16) -> (text: String)
    requires
        is_status(status),
    ensures
        text@ == status_text(status),
{
    StatusCode::from_u16(status).unwrap().to_string()
}

/// The status tells of success.
pub open spec fn is_success(status: u16) -> bool {
    200 <= status <= 299
}

impl Endpoint {
    /// An answer of the endpoint is of use only if its status tells of success.
    pub open spec fn checks_status(self) -> bool {
        match self {
            Endpoint::SearchPage | Endpoint::Table => false,
            _ => true,
        }
    }

    /// What is said, before the reason, of a request that could not be sent.
    pub open spec fn send_failure(self) -> Seq<char> {
        match self {
            Endpoint::SearchPage => "Failed to load search page: "@,
            Endpoint::Search => "Search request failed: "@,
            Endpoint::Quote | Endpoint::Chart | Endpoint::ProfilePage { .. } => {
                "HTTP request failed: "@
            },
            Endpoint::Table => "AJAX request failed: "@,
        }
    }

    /// What is said, before the reason, of a body that could not be read.
    pub open spec fn body_failure(self) -> Seq<char> {
        match self {
            Endpoint::SearchPage => "Failed to read search page: "@,
            Endpoint::Search => "Search JSON parse error: "@,
            Endpoint::Quote | Endpoint::Chart => "JSON parse error: "@,
            Endpoint::ProfilePage { .. } => "Failed to read profile page: "@,
            Endpoint::Table => "Failed to read AJAX response: "@,
        }
    }

    /// The failure that a status without success is. A profile page is missing where there is no
    /// such fund.
    pub open spec fn refusal(self, status: Seq<char>) -> MarketDataErrorView {
        match self {
            Endpoint::ProfilePage { isin } => MarketDataErrorView::SymbolNotFound(
                "ETF profile page returned HTTP "@ + status + " for ISIN "@ + isin@,
            ),
            Endpoint::Search => provider_error("Search returned HTTP "@ + status),
            _ => provider_error("HTTP "@ + status),
        }
    }
}

/// A failure of the provider.
pub open spec fn provider_error(message: Seq<char>) -> MarketDataErrorView {
    MarketDataErrorView::ProviderError { provider: PROVIDER_ID@, message }
}

/// What is to be done about a request to `endpoint` after `event`.
pub open spec fn next_step<T>(endpoint: Endpoint, event: FetchEvent<T>) -> FetchStepView<T> {
    match event {
        FetchEvent::SendFailed(reason) => FetchStepView::Failed(
            provider_error(endpoint.send_failure() + reason@),
        ),
        FetchEvent::Answered(status) => if endpoint.checks_status() && !is_success(status) {
            FetchStepView::Failed(endpoint.refusal(status_text(status)))
        } else {
            FetchStepView::ReadBody
        },
        FetchEvent::BodyFailed(reason) => FetchStepView::Failed(
            provider_error(endpoint.body_failure() + reason@),
        ),
        FetchEvent::Body(body) => FetchStepView::Done(body),
    }
}

/// A failure of the provider.
fn make_provider_error(message: String) -> (error: MarketDataError)
    ensures
        error.deep_view() == provider_error(message@),
{
    MarketDataError::ProviderError { provider: PROVIDER_ID.to_owned(), message }
}

/// The failure that a status without success, in its printed form, is.
pub fn refuse(endpoint: &Endpoint, status: &str) -> (error: MarketDataError)
    ensures
        error.deep_view() == endpoint.refusal(status@),
{
    match endpoint {
        Endpoint::ProfilePage { isin } => MarketDataError::SymbolNotFound(
            "ETF profile page returned HTTP ".to_owned().concat(status).concat(
                " for ISIN ",
            ).concat(isin.as_str()),
        ),
        Endpoint::Search => make_provider_error("Search returned HTTP ".to_owned().concat(status)),
        _ => make_provider_error("HTTP ".to_owned().concat(status)),
    }
}

/// What is to be done about a request to `endpoint` after `event`.
pub fn fetch_step<T>(endpoint: &Endpoint, event: FetchEvent<T>) -> (step: FetchStep<T>)
    requires
        event matches FetchEvent::Answered(status) ==> is_status(status),
    ensures
        step.content() == next_step(*endpoint, event),
{
    match event {
        FetchEvent::SendFailed(reason) => {
            let what = match endpoint {
                Endpoint::SearchPage => "Failed to load search page: ",
                Endpoint::Search => "Search request failed: ",
                Endpoint::Quote | Endpoint::Chart | Endpoint::ProfilePage { .. } => {
                    "HTTP request failed: "
                },
                Endpoint::Table => "AJAX request failed: ",
            };
            let message = what.to_owned().concat(reason.as_str());
            FetchStep::Finish(Err(make_provider_error(message)))
        },
        FetchEvent::Answered(status) => {
            let checked = match endpoint {
                Endpoint::SearchPage | Endpoint::Table => false,
                _ => true,
            };
            if checked && (status < 200 || status > 299) {
                let printed = print_status(status);
                FetchStep::Finish(Err(refuse(endpoint, printed.as_str())))
            } else {
                FetchStep::ReadBody
            }
        },
        FetchEvent::BodyFailed(reason) => {
            let what = match endpoint {
                Endpoint::SearchPage => "Failed to read search page: ",
                Endpoint::Search => "Search JSON parse error: ",
                Endpoint::Quote | Endpoint::Chart => "JSON parse error: ",
                Endpoint::ProfilePage { .. } => "Failed to read profile page: ",
                Endpoint::Table => "Failed to read AJAX response: ",
            };
            let message = what.to_owned().concat(reason.as_str());
            FetchStep::Finish(Err(make_provider_error(message)))
        },
        FetchEvent::Body(body) => FetchStep::Finish(Ok(body)),
    }
}

/// A request succeeds only with a body that was read, and then with that body.
pub proof fn success_is_the_body<T>(endpoint: Endpoint, event: FetchEvent<T>, body: T)
    ensures
        next_step(endpoint, event) == FetchStepView::Done(body) <==> event == FetchEvent::Body(
            body,
        ),
{
}

/// A body is read only after an answer: one with a status of success where the endpoint's status
/// counts, and any answer where it does not.
pub proof fn bodies_are_read_after_success<T>(endpoint: Endpoint, event: FetchEvent<T>)
    ensures
        next_step(endpoint, event) is ReadBody <==> (event matches FetchEvent::Answered(status)
            && (is_success(status) || !endpoint.checks_status())),
{
}

/// Every failure is one of the provider, under its name, but that of a profile page that is
/// answered without success: then there is no such fund.
pub proof fn failures_name_the_provider<T>(endpoint: Endpoint, event: FetchEvent<T>)
    ensures
        next_step(endpoint, event) matches FetchStepView::Failed(error) ==> {
            ||| error matches MarketDataErrorView::ProviderError { provider, .. } && provider
                == PROVIDER_ID@
            ||| endpoint is ProfilePage && event is Answered && error is SymbolNotFound
        },
{
}

} // verus!
