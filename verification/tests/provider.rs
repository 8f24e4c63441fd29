use just_etf::models::{
    Coverage, InstrumentId, InstrumentKind, MarketDataError, ProviderInstrument, QuoteContext,
    RateLimit,
};
use just_etf::provider::QuoteTarget;
use just_etf::{looks_like_isin, JustEtfProvider};

fn context(currency_hint: Option<&str>) -> QuoteContext {
    QuoteContext {
        instrument: InstrumentId::Equity {
            ticker: String::from("IE00B4L5Y983"),
            mic: Some(String::from("XETR")),
        },
        currency_hint: currency_hint.map(String::from),
    }
}

#[test]
fn test_looks_like_isin() {
    assert!(looks_like_isin("IE00B4L5Y983"));
    assert!(looks_like_isin("DE0007164600"));
    assert!(looks_like_isin("US912810TH14"));
    assert!(!looks_like_isin("AAPL"));
    assert!(!looks_like_isin("123456789012"));
    assert!(!looks_like_isin("IE00B4L5Y98")); // too short
    assert!(!looks_like_isin("IE00B4L5Y9834")); // too long
}

#[test]
fn isin_shape_edge_cases() {
    assert!(!looks_like_isin(""));
    assert!(!looks_like_isin("ie00B4L5Y983"));
    assert!(looks_like_isin("IE00b4l5y983"));
    assert!(!looks_like_isin("IE00B4L5Y98-"));
    assert!(!looks_like_isin("IE 0B4L5Y983"));
    // Twelve bytes, or twelve characters, that are not all ASCII.
    assert!(!looks_like_isin("IE00B4L5Y9\u{e9}"));
    assert!(!looks_like_isin("I\u{e9}00B4L5Y98"));
    assert!(!looks_like_isin("\u{c9}E00B4L5Y983"));
}

#[test]
fn test_extract_isin() {
    let provider = JustEtfProvider::new();
    let instrument = ProviderInstrument::EquitySymbol {
        symbol: String::from("IE00B4L5Y983"),
    };
    assert_eq!(
        provider.extract_isin(&instrument),
        Some("IE00B4L5Y983")
    );
}

#[test]
fn other_instruments_have_no_isin() {
    let provider = JustEtfProvider::new();
    let instrument = ProviderInstrument::Other {
        description: String::from("FxPair { from: \"EUR\", to: \"USD\" }"),
    };
    assert_eq!(provider.extract_isin(&instrument), None);
}

#[test]
fn test_resolve_currency_default() {
    let provider = JustEtfProvider::new();
    let context = QuoteContext {
        instrument: InstrumentId::Equity {
            ticker: String::from("IE00B4L5Y983"),
            mic: Some(String::from("XETR")),
        },
        currency_hint: None,
    };
    assert_eq!(provider.resolve_currency(&context), "EUR");
}

#[test]
fn test_resolve_currency_from_hint() {
    let provider = JustEtfProvider::new();
    let context = QuoteContext {
        instrument: InstrumentId::Equity {
            ticker: String::from("IE00B4L5Y983"),
            mic: Some(String::from("XETR")),
        },
        currency_hint: Some(String::from("USD")),
    };
    assert_eq!(provider.resolve_currency(&context), "USD");
}

#[test]
fn quote_targets() {
    let provider = JustEtfProvider::new();
    let fund = ProviderInstrument::EquitySymbol { symbol: String::from("IE00B4L5Y983") };
    assert_eq!(
        provider.quote_target(&context(Some("CHF")), &fund),
        Ok(QuoteTarget { isin: String::from("IE00B4L5Y983"), currency: String::from("CHF") })
    );
    assert_eq!(
        provider.quote_target(&context(None), &fund),
        Ok(QuoteTarget { isin: String::from("IE00B4L5Y983"), currency: String::from("EUR") })
    );
    let coin = ProviderInstrument::Other { description: String::from("CryptoSymbol") };
    assert_eq!(
        provider.quote_target(&context(None), &coin),
        Err(MarketDataError::UnsupportedAssetType(String::from("CryptoSymbol")))
    );
}

#[test]
fn dividend_targets_are_in_euro() {
    let provider = JustEtfProvider::new();
    let fund = ProviderInstrument::EquitySymbol { symbol: String::from("GB00BJYDH287") };
    assert_eq!(
        provider.dividend_target(&fund),
        Ok(QuoteTarget { isin: String::from("GB00BJYDH287"), currency: String::from("EUR") })
    );
    let coin = ProviderInstrument::Other { description: String::from("CryptoSymbol") };
    assert_eq!(
        provider.dividend_target(&coin),
        Err(MarketDataError::NotSupported {
            operation: String::from("dividends"),
            provider: String::from("JUST_ETF"),
        })
    );
}

#[test]
fn identity_and_limits() {
    let provider = JustEtfProvider::default();
    assert_eq!(provider, JustEtfProvider::new());
    assert_eq!(provider.id(), "JUST_ETF");
    assert_eq!(provider.priority(), 9);
    let capabilities = provider.capabilities();
    assert_eq!(capabilities.instrument_kinds, vec![InstrumentKind::Equity]);
    assert_eq!(capabilities.coverage, Coverage::GlobalBestEffort);
    assert!(capabilities.supports_latest);
    assert!(capabilities.supports_historical);
    assert!(capabilities.supports_search);
    assert!(capabilities.supports_profile);
    assert!(capabilities.supports_dividends);
    assert_eq!(
        provider.rate_limit(),
        RateLimit { requests_per_minute: 30, max_concurrency: 3, min_delay_millis: 500 }
    );
}

#[test]
fn client_settings() {
    let provider = JustEtfProvider::new();
    let agent = "Mozilla/5.0 (Windows NT 10.0; Win64; x64) AppleWebKit/537.36 \
        (KHTML, like Gecko) Chrome/131.0.0.0 Safari/537.36";
    assert_eq!(provider.client.timeout_secs, 30);
    assert_eq!(provider.client.user_agent, agent);
    assert_eq!(provider.client.accept.as_deref(), Some("application/json"));
    assert!(!provider.client.cookie_store);
    assert_eq!(provider.ajax_client.timeout_secs, 30);
    assert_eq!(provider.ajax_client.user_agent, agent);
    assert_eq!(provider.ajax_client.accept, None);
    assert!(provider.ajax_client.cookie_store);
}
