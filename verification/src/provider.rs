//! The justETF provider: who it is, what it can do, and what it is asked.

use vstd::prelude::*;
use vstd::string::*;

use crate::models;
use crate::models::{
    ClientSettings, Coverage, InstrumentKind, MarketDataError, MarketDataErrorView,
    ProviderCapabilities, ProviderInstrument, QuoteContext, RateLimit,
};

verus! {

/// The name of the provider.
pub const PROVIDER_ID: &'static str = "JUST_ETF";

/// How long a request may take, in seconds.
pub const REQUEST_TIMEOUT_SECS: u64 = 30;

/// The user agent that the requests carry.
pub const UA: &'static str =
    "Mozilla/5.0 (Windows NT 10.0; Win64; x64) AppleWebKit/537.36 (KHTML, like Gecko) Chrome/131.0.0.0 Safari/537.36";

/// The currency of a quote for which no other is asked.
pub const DEFAULT_CURRENCY: &'static str = "EUR";

/// The fund and the currency that a request is about.
#[derive(Debug, PartialEq, Eq)]
pub struct QuoteTarget {
    pub isin: String,
    pub currency: String,
}

/// The content of a [`QuoteTarget`].
pub struct QuoteTargetView {
    pub isin: Seq<char>,
    pub currency: Seq<char>,
}

impl DeepView for QuoteTarget {
    type V = QuoteTargetView;

    open spec fn deep_view(&self) -> QuoteTargetView {
        QuoteTargetView { isin: self.isin@, currency: self.currency@ }
    }
}

/// The provider, with the settings of its two HTTP clients: one for the endpoints, one for the
/// profile pages and the tables that they load.
#[derive(Debug, PartialEq, Eq)]
pub struct JustEtfProvider {
    pub client: ClientSettings,
    pub ajax_client: ClientSettings,
}

/// The ISIN of an instrument, which only a share or fund has.
pub open spec fn isin_of(instrument: ProviderInstrument) -> Option<Seq<char>> {
    match instrument {
        ProviderInstrument::EquitySymbol { symbol } => Some(symbol@),
        ProviderInstrument::Other { .. } => None,
    }
}

/// The currency that is asked for: that of the hint, or else euro.
pub open spec fn currency_of(context: QuoteContext) -> Seq<char> {
    match context.currency_hint {
        Some(currency) => currency@,
        None => DEFAULT_CURRENCY@,
    }
}

impl JustEtfProvider {
    /// The settings of the provider's clients.
    pub open spec fn has_standard_settings(self) -> bool {
        &&& self.client.timeout_secs == REQUEST_TIMEOUT_SECS
        &&& self.client.user_agent@ == UA@
        &&& self.client.accept.deep_view() == Some("application/json"@)
        &&& !self.client.cookie_store
        &&& self.ajax_client.timeout_secs == REQUEST_TIMEOUT_SECS
        &&& self.ajax_client.user_agent@ == UA@
        &&& self.ajax_client.accept is None
        &&& self.ajax_client.cookie_store
    }

    /// The provider with its standard settings.
    pub fn new() -> (provider: JustEtfProvider)
        ensures
            provider.has_standard_settings(),
    {
        JustEtfProvider {
            client: ClientSettings {
                timeout_secs: REQUEST_TIMEOUT_SECS,
                user_agent: UA.to_owned(),
                accept: Some("application/json".to_owned()),
                cookie_store: false,
            },
            ajax_client: ClientSettings {
                timeout_secs: REQUEST_TIMEOUT_SECS,
                user_agent: UA.to_owned(),
                accept: None,
                cookie_store: true,
            },
        }
    }

    /// The name of the provider.
    pub fn id(&self) -> (id: &'static str)
        ensures
            id@ == PROVIDER_ID@,
    {
        PROVIDER_ID
    }

    /// The rank of the provider among others; a lower one is asked first.
    pub fn priority(&self) -> (priority: u8)
        ensures
            priority == 9,
    {
        9
    }

    /// What the provider can do: everything, for shares and funds.
    pub fn capabilities(&self) -> (capabilities: ProviderCapabilities)
        ensures
            capabilities.instrument_kinds@ == seq![InstrumentKind::Equity],
            capabilities.coverage == Coverage::GlobalBestEffort,
            capabilities.supports_latest,
            capabilities.supports_historical,
            capabilities.supports_search,
            capabilities.supports_profile,
            capabilities.supports_dividends,
    {
        ProviderCapabilities {
            instrument_kinds: vec![InstrumentKind::Equity],
            coverage: Coverage::GlobalBestEffort,
            supports_latest: true,
            supports_historical: true,
            supports_search: true,
            supports_profile: true,
            supports_dividends: true,
        }
    }

    /// How often the provider may be asked.
    pub fn rate_limit(&self) -> (limit: RateLimit)
        ensures
            limit.requests_per_minute == 30,
            limit.max_concurrency == 3,
            limit.min_delay_millis == 500,
    {
        RateLimit { requests_per_minute: 30, max_concurrency: 3, min_delay_millis: 500 }
    }

    /// The ISIN of an instrument, which only a share or fund has.
    pub fn extract_isin<'a>(&self, instrument: &'a ProviderInstrument) -> (isin: Option<&'a str>)
        ensures
            isin.deep_view() == isin_of(*instrument),
    {
        match instrument {
            ProviderInstrument::EquitySymbol { symbol } => Some(symbol.as_str()),
            ProviderInstrument::Other { .. } => None,
        }
    }

    /// The currency that is asked for: that of the hint, or else euro.
    pub fn resolve_currency(&self, context: &QuoteContext) -> (currency: String)
        ensures
            currency@ == currency_of(*context),
    {
        match &context.currency_hint {
            Some(currency) => currency.clone(),
            None => DEFAULT_CURRENCY.to_owned(),
        }
    }

    /// What a request for quotes is about. An instrument that is no share or fund is refused, by
    /// its printed form.
    pub fn quote_target(&self, context: &QuoteContext, instrument: &ProviderInstrument) -> (target:
        Result<QuoteTarget, MarketDataError>)
        ensures
            models::outcome(target) == match *instrument {
                ProviderInstrument::EquitySymbol { symbol } => Ok(
                    QuoteTargetView { isin: symbol@, currency: currency_of(*context) },
                ),
                ProviderInstrument::Other { description } => Err(
                    MarketDataErrorView::UnsupportedAssetType(description@),
                ),
            },
    {
        match instrument {
            ProviderInstrument::EquitySymbol { symbol } => Ok(
                QuoteTarget { isin: symbol.clone(), currency: self.resolve_currency(context) },
            ),
            ProviderInstrument::Other { description } => Err(
                MarketDataError::UnsupportedAssetType(description.clone()),
            ),
        }
    }

    /// What a request for dividends is about; they are always asked for in euro. An instrument
    /// that is no share or fund has none.
    pub fn dividend_target(&self, instrument: &ProviderInstrument) -> (target: Result<
        QuoteTarget,
        MarketDataError,
    >)
        ensures
            models::outcome(target) == match isin_of(*instrument) {
                Some(isin) => Ok(QuoteTargetView { isin, currency: DEFAULT_CURRENCY@ }),
                None => Err(
                    MarketDataErrorView::NotSupported {
                        operation: "dividends"@,
                        provider: PROVIDER_ID@,
                    },
                ),
            },
    {
        match self.extract_isin(instrument) {
            Some(isin) => Ok(
                QuoteTarget { isin: isin.to_owned(), currency: DEFAULT_CURRENCY.to_owned() },
            ),
            None => Err(
                MarketDataError::NotSupported {
                    operation: "dividends".to_owned(),
                    provider: self.id().to_owned(),
                },
            ),
        }
    }
}

impl Default for JustEtfProvider {
    /// The provider with its standard settings.
    fn default() -> (provider: JustEtfProvider)
        ensures
            provider.has_standard_settings(),
    {
        JustEtfProvider::new()
    }
}

} // verus!
