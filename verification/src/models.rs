//! The data that the provider takes and gives.

use rust_decimal::Decimal;
use vstd::prelude::*;

use crate::time::Timestamp;

verus! {

/// Prices are decimals of the `rust_decimal` crate, which are carried through unread.
#[verifier::external_type_specification]
#[verifier::external_body]
pub struct ExDecimal(rust_decimal::Decimal);

/// What an instrument is.
#[derive(Debug, PartialEq, Eq)]
pub enum InstrumentId {
    /// A share or fund, by its ticker and the market it is listed on.
    Equity { ticker: String, mic: Option<String> },
    /// Any other instrument, by its printed form.
    Other { description: String },
}

/// An instrument in the terms of a provider.
#[derive(Debug, PartialEq, Eq)]
pub enum ProviderInstrument {
    /// A share or fund, by its symbol; with this provider the symbol is an ISIN.
    EquitySymbol { symbol: String },
    /// Any other instrument, by its printed form.
    Other { description: String },
}

/// What is known of the quote that is asked for.
#[derive(Debug, PartialEq, Eq)]
pub struct QuoteContext {
    pub instrument: InstrumentId,
    pub currency_hint: Option<String>,
}

/// A price on a day.
#[derive(Debug, PartialEq, Eq)]
pub struct Quote {
    pub timestamp: Timestamp,
    pub open: Option<Decimal>,
    pub high: Option<Decimal>,
    pub low: Option<Decimal>,
    pub close: Decimal,
    pub volume: Option<Decimal>,
    pub currency: String,
    pub source: String,
}

/// The content of a [`Quote`].
pub struct QuoteView {
    pub timestamp: Timestamp,
    pub open: Option<Decimal>,
    pub high: Option<Decimal>,
    pub low: Option<Decimal>,
    pub close: Decimal,
    pub volume: Option<Decimal>,
    pub currency: Seq<char>,
    pub source: Seq<char>,
}

impl DeepView for Quote {
    type V = QuoteView;

    open spec fn deep_view(&self) -> QuoteView {
        QuoteView {
            timestamp: self.timestamp,
            open: self.open,
            high: self.high,
            low: self.low,
            close: self.close,
            volume: self.volume,
            currency: self.currency@,
            source: self.source@,
        }
    }
}

/// A dividend, with the second at which its day begins. `A` is the type of the amounts.
#[derive(Debug, PartialEq, Eq)]
pub struct DividendEvent<A> {
    pub amount: A,
    pub date: i64,
}

/// A fund that a search has found.
#[derive(Debug, PartialEq, Eq)]
pub struct SearchResult {
    pub symbol: String,
    pub name: String,
    pub exchange: String,
    pub exchange_mic: Option<String>,
    pub exchange_name: Option<String>,
    pub asset_type: String,
    pub currency: Option<String>,
    pub data_source: Option<String>,
}

/// The content of a [`SearchResult`].
pub struct SearchResultView {
    pub symbol: Seq<char>,
    pub name: Seq<char>,
    pub exchange: Seq<char>,
    pub exchange_mic: Option<Seq<char>>,
    pub exchange_name: Option<Seq<char>>,
    pub asset_type: Seq<char>,
    pub currency: Option<Seq<char>>,
    pub data_source: Option<Seq<char>>,
}

impl DeepView for SearchResult {
    type V = SearchResultView;

    open spec fn deep_view(&self) -> SearchResultView {
        SearchResultView {
            symbol: self.symbol@,
            name: self.name@,
            exchange: self.exchange@,
            exchange_mic: self.exchange_mic.deep_view(),
            exchange_name: self.exchange_name.deep_view(),
            asset_type: self.asset_type@,
            currency: self.currency.deep_view(),
            data_source: self.data_source.deep_view(),
        }
    }
}

/// What is known of a fund.
#[derive(Debug, PartialEq, Eq)]
pub struct AssetProfile {
    pub source: Option<String>,
    pub name: Option<String>,
    pub quote_type: Option<String>,
    pub description: Option<String>,
    pub country: Option<String>,
    /// The weights of the countries, as JSON.
    pub countries: Option<String>,
    /// The weights of the sectors, as JSON.
    pub sectors: Option<String>,
    pub isin: Option<String>,
    /// The numeral of the yield in percent.
    pub dividend_yield: Option<String>,
}

/// The content of an [`AssetProfile`].
pub struct AssetProfileView {
    pub source: Option<Seq<char>>,
    pub name: Option<Seq<char>>,
    pub quote_type: Option<Seq<char>>,
    pub description: Option<Seq<char>>,
    pub country: Option<Seq<char>>,
    pub countries: Option<Seq<char>>,
    pub sectors: Option<Seq<char>>,
    pub isin: Option<Seq<char>>,
    pub dividend_yield: Option<Seq<char>>,
}

impl DeepView for AssetProfile {
    type V = AssetProfileView;

    open spec fn deep_view(&self) -> AssetProfileView {
        AssetProfileView {
            source: self.source.deep_view(),
            name: self.name.deep_view(),
            quote_type: self.quote_type.deep_view(),
            description: self.description.deep_view(),
            country: self.country.deep_view(),
            countries: self.countries.deep_view(),
            sectors: self.sectors.deep_view(),
            isin: self.isin.deep_view(),
            dividend_yield: self.dividend_yield.deep_view(),
        }
    }
}

/// Why the provider could not answer.
#[derive(Debug, PartialEq, Eq)]
pub enum MarketDataError {
    /// The provider has no data of instruments of this kind.
    UnsupportedAssetType(String),
    /// The provider knows no such symbol.
    SymbolNotFound(String),
    /// The provider holds data, but none within the range asked for.
    NoDataForRange,
    /// What the provider sent makes no sense.
    ValidationFailed { message: String },
    /// A request to the provider failed.
    ProviderError { provider: String, message: String },
    /// The provider does not do this.
    NotSupported { operation: String, provider: String },
}

/// The content of a [`MarketDataError`].
pub enum MarketDataErrorView {
    UnsupportedAssetType(Seq<char>),
    SymbolNotFound(Seq<char>),
    NoDataForRange,
    ValidationFailed { message: Seq<char> },
    ProviderError { provider: Seq<char>, message: Seq<char> },
    NotSupported { operation: Seq<char>, provider: Seq<char> },
}

impl DeepView for MarketDataError {
    type V = MarketDataErrorView;

    open spec fn deep_view(&self) -> MarketDataErrorView {
        match *self {
            MarketDataError::UnsupportedAssetType(kind) => {
                MarketDataErrorView::UnsupportedAssetType(kind@)
            },
            MarketDataError::SymbolNotFound(message) => MarketDataErrorView::SymbolNotFound(
                message@,
            ),
            MarketDataError::NoDataForRange => MarketDataErrorView::NoDataForRange,
            MarketDataError::ValidationFailed { message } => {
                MarketDataErrorView::ValidationFailed { message: message@ }
            },
            MarketDataError::ProviderError { provider, message } => {
                MarketDataErrorView::ProviderError { provider: provider@, message: message@ }
            },
            MarketDataError::NotSupported { operation, provider } => {
                MarketDataErrorView::NotSupported { operation: operation@, provider: provider@ }
            },
        }
    }
}

/// The content of an answer that may have failed.
pub open spec fn outcome<T: DeepView>(answer: Result<T, MarketDataError>) -> Result<
    T::V,
    MarketDataErrorView,
> {
    match answer {
        Ok(value) => Ok(value.deep_view()),
        Err(error) => Err(error.deep_view()),
    }
}

/// A number that an endpoint has sent: the decimal that it converts to, if it converts, and its
/// printed form.
#[derive(Debug, PartialEq, Eq)]
pub struct RawValue {
    pub decimal: Option<Decimal>,
    pub printed: String,
}

/// The lowest and the highest price of a day.
#[derive(Debug, PartialEq, Eq)]
pub struct QuoteLowHigh {
    pub low: RawValue,
    pub high: RawValue,
}

/// What the quote endpoint answers.
#[derive(Debug, PartialEq, Eq)]
pub struct QuoteResponse {
    pub latest_quote: RawValue,
    pub latest_quote_date: String,
    pub quote_low_high: Option<QuoteLowHigh>,
}

/// A value on a day of a chart.
#[derive(Debug, PartialEq, Eq)]
pub struct ChartPoint<V> {
    pub date: String,
    pub value: V,
}

/// What a chart shows beside its prices. `A` is the type of the amounts.
#[derive(Debug, PartialEq, Eq)]
pub struct ChartFeature<A> {
    pub dividends: Vec<ChartPoint<A>>,
}

/// What the chart endpoint answers: the prices, each with the decimal that it converts to, if it
/// converts, and the features.
#[derive(Debug, PartialEq, Eq)]
pub struct ChartResponse<A> {
    pub series: Vec<ChartPoint<Option<Decimal>>>,
    pub features: Option<ChartFeature<A>>,
}

/// A fund in the answer of the search endpoint.
#[derive(Debug, PartialEq, Eq)]
pub struct ScreenerItem {
    pub isin: String,
    pub name: String,
    pub fund_currency: Option<String>,
}

/// What the search endpoint answers.
#[derive(Debug, PartialEq, Eq)]
pub struct ScreenerResponse {
    pub data: Vec<ScreenerItem>,
}

/// The kinds of instruments that the provider has data of.
#[derive(Debug, Clone, Copy, PartialEq, Eq, Structural)]
pub enum InstrumentKind {
    Equity,
}

/// The markets that the provider covers.
#[derive(Debug, Clone, Copy, PartialEq, Eq, Structural)]
pub enum Coverage {
    /// All markets, as far as the provider happens to know them.
    GlobalBestEffort,
}

/// What the provider can do.
#[derive(Debug, PartialEq, Eq)]
pub struct ProviderCapabilities {
    pub instrument_kinds: Vec<InstrumentKind>,
    pub coverage: Coverage,
    pub supports_latest: bool,
    pub supports_historical: bool,
    pub supports_search: bool,
    pub supports_profile: bool,
    pub supports_dividends: bool,
}

/// How often the provider may be asked.
#[derive(Debug, Clone, Copy, PartialEq, Eq, Structural)]
pub struct RateLimit {
    pub requests_per_minute: u32,
    pub max_concurrency: usize,
    pub min_delay_millis: u64,
}

/// How an HTTP client of the provider is set up.
#[derive(Debug, PartialEq, Eq)]
pub struct ClientSettings {
    pub timeout_secs: u64,
    pub user_agent: String,
    /// The media type that every request asks for, if there is one.
    pub accept: Option<String>,
    /// Whether cookies are kept from one request to the next.
    pub cookie_store: bool,
}

} // verus!
