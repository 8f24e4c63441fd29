//! The requests that the provider makes.

use vstd::prelude::*;
use vstd::string::*;

use crate::provider::JustEtfProvider;
use crate::text;

verus! {

/// Where justETF is reached.
pub const BASE_URL: &'static str = "https://www.justetf.com";

/// The table of a fund's sectors.
pub const SECTORS_TABLE: &'static str = "sectors-loadMoreSectors";

/// The table of a fund's countries.
pub const COUNTRIES_TABLE: &'static str = "countries-loadMoreCountries";

/// The client that makes a request.
#[derive(Debug, Clone, Copy, PartialEq, Eq, Structural)]
pub enum RequestClient {
    /// The client for the endpoints.
    Plain,
    /// The client for the profile pages and their tables.
    Ajax,
}

/// An HTTP request: a `GET`, or, where it carries a form, a `POST`.
#[derive(Debug, PartialEq, Eq)]
pub struct HttpRequest {
    pub client: RequestClient,
    pub url: String,
    /// The headers that the request has beside those of its client.
    pub headers: Vec<(String, String)>,
    pub form: Option<Vec<(String, String)>>,
}

/// The content of an [`HttpRequest`].
pub struct HttpRequestView {
    pub client: RequestClient,
    pub url: Seq<char>,
    pub headers: Seq<(Seq<char>, Seq<char>)>,
    pub form: Option<Seq<(Seq<char>, Seq<char>)>>,
}

impl DeepView for HttpRequest {
    type V = HttpRequestView;

    open spec fn deep_view(&self) -> HttpRequestView {
        HttpRequestView {
            client: self.client,
            url: self.url@,
            headers: self.headers.deep_view(),
            form: self.form.deep_view(),
        }
    }
}

/// A `GET` without headers of its own.
pub open spec fn get(client: RequestClient, url: Seq<char>) -> HttpRequestView {
    HttpRequestView { client, url, headers: Seq::empty(), form: None }
}

/// The address of the page on which a search begins.
pub open spec fn search_page_url() -> Seq<char> {
    BASE_URL@ + "/en/search.html?search=ETFS"@
}

/// The address of the search endpoint on a page with the given counter.
pub open spec fn search_url(counter: Seq<char>) -> Seq<char> {
    BASE_URL@ + "/en/search.html?"@ + counter
        + "-1.0-container-tabsContentContainer-tabsContentRepeater-1-container-content-etfsTablePanel=&search=ETFS&_wicket=1"@
}

/// The form that asks for the first twenty funds that match a query.
pub open spec fn search_form(query: Seq<char>) -> Seq<(Seq<char>, Seq<char>)> {
    seq![
        ("draw"@, "1"@),
        ("start"@, "0"@),
        ("length"@, "20"@),
        ("lang"@, "en"@),
        ("country"@, "DE"@),
        ("universeType"@, "private"@),
        ("defaultCurrency"@, "EUR"@),
        ("etfsParams"@, "search=ETF&productGroup=epg-longOnly&ls=any&query="@ + query),
    ]
}

/// The address of the latest quote of a fund.
pub open spec fn quote_url(isin: Seq<char>, currency: Seq<char>) -> Seq<char> {
    BASE_URL@ + "/api/etfs/"@ + isin + "/quote?locale=en&currency="@ + currency
}

/// The address of the chart of a fund.
pub open spec fn chart_url(isin: Seq<char>, currency: Seq<char>) -> Seq<char> {
    BASE_URL@ + "/api/etfs/"@ + isin + "/performance-chart?locale=en&currency="@ + currency
        + "&valuesType=MARKET_VALUE&reduceData=false&includeDividends=true&features=DIVIDENDS"@
}

/// The address of the profile page of a fund.
pub open spec fn profile_url(isin: Seq<char>) -> Seq<char> {
    BASE_URL@ + "/en/etf-profile.html?isin="@ + isin
}

/// The address of a table of a profile page with the given counter.
pub open spec fn table_url(isin: Seq<char>, counter: Seq<char>, table: Seq<char>) -> Seq<char> {
    BASE_URL@ + "/en/etf-profile.html?"@ + counter + "-1.0-holdingsSection-"@ + table + "&isin="@
        + isin + "&_wicket=1"@
}

/// The headers with which a profile page loads its tables.
pub open spec fn table_headers(isin: Seq<char>) -> Seq<(Seq<char>, Seq<char>)> {
    seq![
        ("X-Requested-With"@, "XMLHttpRequest"@),
        ("Wicket-Ajax"@, "true"@),
        ("Wicket-Ajax-BaseURL"@, "en/etf-profile.html?isin="@ + isin),
        ("Accept"@, "application/xml, text/xml, */*; q=0.01"@),
        ("Referer"@, profile_url(isin)),
    ]
}

/// A `GET` without headers of its own.
fn make_get(client: RequestClient, url: String) -> (request: HttpRequest)
    ensures
        request.deep_view() == get(client, url@),
{
    let request = HttpRequest { client, url, headers: Vec::new(), form: None };
    assert(request.headers.deep_view() =~= Seq::empty());
    request
}

/// A named value of a form or header.
fn field(name: &str, value: &str) -> (made: (String, String))
    ensures
        made.deep_view() == (name@, value@),
{
    (name.to_owned(), value.to_owned())
}

impl JustEtfProvider {
    /// Asks for the page on which a search begins.
    pub fn search_page_request(&self) -> (request: HttpRequest)
        ensures
            request.deep_view() == get(RequestClient::Plain, search_page_url()),
    {
        let url = BASE_URL.to_owned().concat("/en/search.html?search=ETFS");
        make_get(RequestClient::Plain, url)
    }

    /// Asks for the first twenty funds that match a query.
    pub fn search_request(&self, counter: &str, query: &str) -> (request: HttpRequest)
        ensures
            request.deep_view() == (HttpRequestView {
                client: RequestClient::Plain,
                url: search_url(counter@),
                headers: Seq::empty(),
                form: Some(search_form(query@)),
            }),
    {
        let url = BASE_URL.to_owned().concat("/en/search.html?").concat(counter).concat(
            "-1.0-container-tabsContentContainer-tabsContentRepeater-1-container-content-etfsTablePanel=&search=ETFS&_wicket=1",
        );
        let params = "search=ETF&productGroup=epg-longOnly&ls=any&query=".to_owned().concat(query);
        let form = vec![
            field("draw", "1"),
            field("start", "0"),
            field("length", "20"),
            field("lang", "en"),
            field("country", "DE"),
            field("universeType", "private"),
            field("defaultCurrency", "EUR"),
            field("etfsParams", params.as_str()),
        ];
        assert(form.deep_view() =~= search_form(query@));
        let request = HttpRequest {
            client: RequestClient::Plain,
            url,
            headers: Vec::new(),
            form: Some(form),
        };
        assert(request.headers.deep_view() =~= Seq::empty());
        request
    }

    /// Asks for the latest quote of a fund.
    pub fn quote_request(&self, isin: &str, currency: &str) -> (request: HttpRequest)
        ensures
            request.deep_view() == get(RequestClient::Plain, quote_url(isin@, currency@)),
    {
        let url = BASE_URL.to_owned().concat("/api/etfs/").concat(isin).concat(
            "/quote?locale=en&currency=",
        ).concat(currency);
        make_get(RequestClient::Plain, url)
    }

    /// Asks for the chart of a fund.
    pub fn chart_request(&self, isin: &str, currency: &str) -> (request: HttpRequest)
        ensures
            request.deep_view() == get(RequestClient::Plain, chart_url(isin@, currency@)),
    {
        let url = BASE_URL.to_owned().concat("/api/etfs/").concat(isin).concat(
            "/performance-chart?locale=en&currency=",
        ).concat(currency).concat(
            "&valuesType=MARKET_VALUE&reduceData=false&includeDividends=true&features=DIVIDENDS",
        );
        make_get(RequestClient::Plain, url)
    }

    /// Asks for the profile page of a fund.
    pub fn profile_page_request(&self, isin: &str) -> (request: HttpRequest)
        ensures
            request.deep_view() == get(RequestClient::Ajax, profile_url(isin@)),
    {
        let url = BASE_URL.to_owned().concat("/en/etf-profile.html?isin=").concat(isin);
        make_get(RequestClient::Ajax, url)
    }

    /// Asks for a table of a profile page with the given counter.
    pub fn table_request(&self, isin: &str, counter: &str, table: &str) -> (request: HttpRequest)
        ensures
            request.deep_view() == (HttpRequestView {
                client: RequestClient::Ajax,
                url: table_url(isin@, counter@, table@),
                headers: table_headers(isin@),
                form: None,
            }),
    {
        let page_url = BASE_URL.to_owned().concat("/en/etf-profile.html?isin=").concat(isin);
        let url = BASE_URL.to_owned().concat("/en/etf-profile.html?").concat(counter).concat(
            "-1.0-holdingsSection-",
        ).concat(table).concat("&isin=").concat(isin).concat("&_wicket=1");
        let relative = "en/etf-profile.html?isin=".to_owned().concat(isin);
        let headers = vec![
            field("X-Requested-With", "XMLHttpRequest"),
            field("Wicket-Ajax", "true"),
            field("Wicket-Ajax-BaseURL", relative.as_str()),
            field("Accept", "application/xml, text/xml, */*; q=0.01"),
            field("Referer", page_url.as_str()),
        ];
        assert(headers.deep_view() =~= table_headers(isin@));
        HttpRequest { client: RequestClient::Ajax, url, headers, form: None }
    }
}

/// `part` stands in a text that is put together around it.
proof fn lemma_holds_part(before: Seq<char>, part: Seq<char>, after: Seq<char>)
    ensures
        text::contains_text(before + part + after, part),
{
    let whole = before + part + after;
    assert(whole.subrange(before.len() as int, before.len() as int + part.len()) =~= part);
    assert(text::occurs_at(whole, part, before.len() as int));
}

/// Whatever is asked of a fund is asked by its ISIN: it stands in the address.
pub proof fn addresses_hold_the_isin(
    isin: Seq<char>,
    currency: Seq<char>,
    counter: Seq<char>,
    table: Seq<char>,
)
    ensures
        text::contains_text(quote_url(isin, currency), isin),
        text::contains_text(chart_url(isin, currency), isin),
        text::contains_text(profile_url(isin), isin),
        text::contains_text(table_url(isin, counter, table), isin),
{
    let api = BASE_URL@ + "/api/etfs/"@;
    let quote_rest = "/quote?locale=en&currency="@ + currency;
    lemma_holds_part(api, isin, quote_rest);
    assert(api + isin + quote_rest =~= quote_url(isin, currency));
    let chart_rest = "/performance-chart?locale=en&currency="@ + currency
        + "&valuesType=MARKET_VALUE&reduceData=false&includeDividends=true&features=DIVIDENDS"@;
    lemma_holds_part(api, isin, chart_rest);
    assert(api + isin + chart_rest =~= chart_url(isin, currency));
    let page = BASE_URL@ + "/en/etf-profile.html?isin="@;
    lemma_holds_part(page, isin, Seq::empty());
    assert(page + isin + Seq::empty() =~= profile_url(isin));
    let front = BASE_URL@ + "/en/etf-profile.html?"@ + counter + "-1.0-holdingsSection-"@ + table
        + "&isin="@;
    lemma_holds_part(front, isin, "&_wicket=1"@);
}

/// A request that follows a page repeats the page's counter.
pub proof fn addresses_repeat_the_counter(
    isin: Seq<char>,
    counter: Seq<char>,
    table: Seq<char>,
)
    ensures
        text::contains_text(search_url(counter), counter),
        text::contains_text(table_url(isin, counter, table), counter),
{
    lemma_holds_part(
        BASE_URL@ + "/en/search.html?"@,
        counter,
        "-1.0-container-tabsContentContainer-tabsContentRepeater-1-container-content-etfsTablePanel=&search=ETFS&_wicket=1"@,
    );
    let front = BASE_URL@ + "/en/etf-profile.html?"@;
    let rest = "-1.0-holdingsSection-"@ + table + "&isin="@ + isin + "&_wicket=1"@;
    lemma_holds_part(front, counter, rest);
    assert(front + counter + rest =~= table_url(isin, counter, table));
}

} // verus!
