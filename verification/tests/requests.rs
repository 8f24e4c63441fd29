use just_etf::fetch::{fetch_step, refuse, Endpoint, FetchEvent, FetchStep};
use just_etf::models::MarketDataError;
use just_etf::requests::{RequestClient, COUNTRIES_TABLE, SECTORS_TABLE};
use just_etf::JustEtfProvider;

fn provider_error(message: &str) -> MarketDataError {
    MarketDataError::ProviderError {
        provider: String::from("JUST_ETF"),
        message: String::from(message),
    }
}

fn failed(message: &str) -> FetchStep<u8> {
    FetchStep::Finish(Err(provider_error(message)))
}

fn fields(pairs: &[(&str, &str)]) -> Vec<(String, String)> {
    pairs.iter().map(|(name, value)| (String::from(*name), String::from(*value))).collect()
}

#[test]
fn search_page() {
    let request = JustEtfProvider::new().search_page_request();
    assert_eq!(request.client, RequestClient::Plain);
    assert_eq!(request.url, "https://www.justetf.com/en/search.html?search=ETFS");
    assert_eq!(request.headers, vec![]);
    assert_eq!(request.form, None);
}

#[test]
fn search() {
    let request = JustEtfProvider::new().search_request("7", "world");
    assert_eq!(request.client, RequestClient::Plain);
    assert_eq!(
        request.url,
        "https://www.justetf.com/en/search.html?7-1.0-container-tabsContentContainer-tabsContentRepeater-1-container-content-etfsTablePanel=&search=ETFS&_wicket=1"
    );
    assert_eq!(request.headers, vec![]);
    assert_eq!(
        request.form,
        Some(fields(&[
            ("draw", "1"),
            ("start", "0"),
            ("length", "20"),
            ("lang", "en"),
            ("country", "DE"),
            ("universeType", "private"),
            ("defaultCurrency", "EUR"),
            ("etfsParams", "search=ETF&productGroup=epg-longOnly&ls=any&query=world"),
        ]))
    );
}

#[test]
fn quote_and_chart() {
    let provider = JustEtfProvider::new();
    let quote = provider.quote_request("IE00B4L5Y983", "USD");
    assert_eq!(quote.client, RequestClient::Plain);
    assert_eq!(
        quote.url,
        "https://www.justetf.com/api/etfs/IE00B4L5Y983/quote?locale=en&currency=USD"
    );
    assert_eq!(quote.form, None);
    let chart = provider.chart_request("IE00B4L5Y983", "EUR");
    assert_eq!(chart.client, RequestClient::Plain);
    assert_eq!(
        chart.url,
        "https://www.justetf.com/api/etfs/IE00B4L5Y983/performance-chart?locale=en&currency=EUR&valuesType=MARKET_VALUE&reduceData=false&includeDividends=true&features=DIVIDENDS"
    );
    assert_eq!(chart.form, None);
}

#[test]
fn profile_page_and_tables() {
    let provider = JustEtfProvider::new();
    let page = provider.profile_page_request("GB00BJYDH287");
    assert_eq!(page.client, RequestClient::Ajax);
    assert_eq!(page.url, "https://www.justetf.com/en/etf-profile.html?isin=GB00BJYDH287");
    let table = provider.table_request("GB00BJYDH287", "3", SECTORS_TABLE);
    assert_eq!(table.client, RequestClient::Ajax);
    assert_eq!(
        table.url,
        "https://www.justetf.com/en/etf-profile.html?3-1.0-holdingsSection-sectors-loadMoreSectors&isin=GB00BJYDH287&_wicket=1"
    );
    assert_eq!(
        table.headers,
        fields(&[
            ("X-Requested-With", "XMLHttpRequest"),
            ("Wicket-Ajax", "true"),
            ("Wicket-Ajax-BaseURL", "en/etf-profile.html?isin=GB00BJYDH287"),
            ("Accept", "application/xml, text/xml, */*; q=0.01"),
            ("Referer", "https://www.justetf.com/en/etf-profile.html?isin=GB00BJYDH287"),
        ])
    );
    assert_eq!(table.form, None);
    let table = provider.table_request("GB00BJYDH287", "3", COUNTRIES_TABLE);
    assert_eq!(
        table.url,
        "https://www.justetf.com/en/etf-profile.html?3-1.0-holdingsSection-countries-loadMoreCountries&isin=GB00BJYDH287&_wicket=1"
    );
}

#[test]
fn requests_that_cannot_be_sent() {
    let event = || FetchEvent::<u8>::SendFailed(String::from("timed out"));
    let profile = Endpoint::ProfilePage { isin: String::from("GB00BJYDH287") };
    assert_eq!(
        fetch_step(&Endpoint::SearchPage, event()),
        failed("Failed to load search page: timed out")
    );
    assert_eq!(fetch_step(&Endpoint::Search, event()), failed("Search request failed: timed out"));
    assert_eq!(fetch_step(&Endpoint::Quote, event()), failed("HTTP request failed: timed out"));
    assert_eq!(fetch_step(&Endpoint::Chart, event()), failed("HTTP request failed: timed out"));
    assert_eq!(fetch_step(&profile, event()), failed("HTTP request failed: timed out"));
    assert_eq!(fetch_step(&Endpoint::Table, event()), failed("AJAX request failed: timed out"));
}

#[test]
fn bodies_that_cannot_be_read() {
    let event = || FetchEvent::<u8>::BodyFailed(String::from("cut off"));
    let profile = Endpoint::ProfilePage { isin: String::from("GB00BJYDH287") };
    assert_eq!(
        fetch_step(&Endpoint::SearchPage, event()),
        failed("Failed to read search page: cut off")
    );
    assert_eq!(fetch_step(&Endpoint::Search, event()), failed("Search JSON parse error: cut off"));
    assert_eq!(fetch_step(&Endpoint::Quote, event()), failed("JSON parse error: cut off"));
    assert_eq!(fetch_step(&Endpoint::Chart, event()), failed("JSON parse error: cut off"));
    assert_eq!(fetch_step(&profile, event()), failed("Failed to read profile page: cut off"));
    assert_eq!(
        fetch_step(&Endpoint::Table, event()),
        failed("Failed to read AJAX response: cut off")
    );
}

#[test]
fn answers_without_success() {
    let event = || FetchEvent::<u8>::Answered(404);
    let profile = Endpoint::ProfilePage { isin: String::from("GB00BJYDH287") };
    assert_eq!(fetch_step(&Endpoint::SearchPage, event()), FetchStep::ReadBody);
    assert_eq!(
        fetch_step(&Endpoint::Search, event()),
        failed("Search returned HTTP 404 Not Found")
    );
    assert_eq!(fetch_step(&Endpoint::Quote, event()), failed("HTTP 404 Not Found"));
    assert_eq!(fetch_step(&Endpoint::Chart, event()), failed("HTTP 404 Not Found"));
    assert_eq!(
        fetch_step(&profile, event()),
        FetchStep::Finish(Err(MarketDataError::SymbolNotFound(String::from(
            "ETF profile page returned HTTP 404 Not Found for ISIN GB00BJYDH287"
        ))))
    );
    assert_eq!(fetch_step(&Endpoint::Table, event()), FetchStep::ReadBody);
}

#[test]
fn statuses_of_success() {
    for status in 100..=999 {
        let step = fetch_step(&Endpoint::Quote, FetchEvent::<u8>::Answered(status));
        assert_eq!(step == FetchStep::ReadBody, (200..300).contains(&status));
    }
    assert_eq!(
        fetch_step(&Endpoint::Quote, FetchEvent::<u8>::Answered(799)),
        failed("HTTP 799 <unknown status code>")
    );
}

#[test]
fn a_body_is_success() {
    for endpoint in [Endpoint::SearchPage, Endpoint::Search, Endpoint::Quote, Endpoint::Table] {
        assert_eq!(fetch_step(&endpoint, FetchEvent::Body(5u8)), FetchStep::Finish(Ok(5u8)));
    }
}

#[test]
fn refusals() {
    assert_eq!(refuse(&Endpoint::Search, "503"), provider_error("Search returned HTTP 503"));
    assert_eq!(refuse(&Endpoint::Chart, "503"), provider_error("HTTP 503"));
}
