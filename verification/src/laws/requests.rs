//! What is asked of justETF, address by address.

use vstd::prelude::*;
use vstd::string::*;

use crate::requests;
use crate::requests::RequestClient;

verus! {

/// Two literals that are put together are one.
proof fn lemma_hosts()
    ensures
        "https://www.justetf.com"@ + "/api/etfs/"@ == "https://www.justetf.com/api/etfs/"@,
        "https://www.justetf.com"@ + "/en/search.html?"@
            == "https://www.justetf.com/en/search.html?"@,
        "https://www.justetf.com"@ + "/en/search.html?search=ETFS"@
            == "https://www.justetf.com/en/search.html?search=ETFS"@,
        "https://www.justetf.com"@ + "/en/etf-profile.html?"@
            == "https://www.justetf.com/en/etf-profile.html?"@,
        "https://www.justetf.com"@ + "/en/etf-profile.html?isin="@
            == "https://www.justetf.com/en/etf-profile.html?isin="@,
{
    reveal_strlit("https://www.justetf.com");
    reveal_strlit("/api/etfs/");
    reveal_strlit("https://www.justetf.com/api/etfs/");
    assert("https://www.justetf.com"@ + "/api/etfs/"@ =~= "https://www.justetf.com/api/etfs/"@);
    reveal_strlit("/en/search.html?");
    reveal_strlit("https://www.justetf.com/en/search.html?");
    assert("https://www.justetf.com"@ + "/en/search.html?"@
        =~= "https://www.justetf.com/en/search.html?"@);
    reveal_strlit("/en/search.html?search=ETFS");
    reveal_strlit("https://www.justetf.com/en/search.html?search=ETFS");
    assert("https://www.justetf.com"@ + "/en/search.html?search=ETFS"@
        =~= "https://www.justetf.com/en/search.html?search=ETFS"@);
    reveal_strlit("/en/etf-profile.html?");
    reveal_strlit("https://www.justetf.com/en/etf-profile.html?");
    assert("https://www.justetf.com"@ + "/en/etf-profile.html?"@
        =~= "https://www.justetf.com/en/etf-profile.html?"@);
    reveal_strlit("/en/etf-profile.html?isin=");
    reveal_strlit("https://www.justetf.com/en/etf-profile.html?isin=");
    assert("https://www.justetf.com"@ + "/en/etf-profile.html?isin="@
        =~= "https://www.justetf.com/en/etf-profile.html?isin="@);
}

/// A search begins on the search page for ETFs, and is sent to the address of that page's counter.
pub proof fn searches_are_sent_to_the_page_of_their_counter(counter: Seq<char>)
    ensures
        requests::search_page_url() == "https://www.justetf.com/en/search.html?search=ETFS"@,
        requests::search_url(counter) == "https://www.justetf.com/en/search.html?"@ + counter
            + "-1.0-container-tabsContentContainer-tabsContentRepeater-1-container-content-etfsTablePanel=&search=ETFS&_wicket=1"@,
{
    lemma_hosts();
}

/// The form of a search asks for the first twenty ETFs that match the query, as it stands, in
/// English, for private investors in Germany, and in euro.
pub proof fn search_forms_carry_the_query(query: Seq<char>)
    ensures
        ({
            let form = requests::search_form(query);
            &&& form.len() == 8
            &&& form[0] == ("draw"@, "1"@)
            &&& form[1] == ("start"@, "0"@)
            &&& form[2] == ("length"@, "20"@)
            &&& form[3] == ("lang"@, "en"@)
            &&& form[4] == ("country"@, "DE"@)
            &&& form[5] == ("universeType"@, "private"@)
            &&& form[6] == ("defaultCurrency"@, "EUR"@)
            &&& form[7].0 == "etfsParams"@
            &&& form[7].1 == "search=ETF&productGroup=epg-longOnly&ls=any&query="@ + query
        }),
{
}

/// The latest quote and the chart of a fund are asked for by its ISIN and in the currency asked
/// for; the chart in full, with its market values and its dividends.
pub proof fn quotes_and_charts_are_asked_for_by_isin_and_currency(
    isin: Seq<char>,
    currency: Seq<char>,
)
    ensures
        requests::quote_url(isin, currency) == "https://www.justetf.com/api/etfs/"@ + isin
            + "/quote?locale=en&currency="@ + currency,
        requests::chart_url(isin, currency) == "https://www.justetf.com/api/etfs/"@ + isin
            + "/performance-chart?locale=en&currency="@ + currency
            + "&valuesType=MARKET_VALUE&reduceData=false&includeDividends=true&features=DIVIDENDS"@,
{
    lemma_hosts();
}

/// The profile page of a fund is asked for by its ISIN, and a table of it by the page's counter,
/// the table's name and the fund's ISIN.
pub proof fn profiles_and_tables_are_asked_for_by_isin(
    isin: Seq<char>,
    counter: Seq<char>,
    table: Seq<char>,
)
    ensures
        requests::profile_url(isin) == "https://www.justetf.com/en/etf-profile.html?isin="@ + isin,
        requests::table_url(isin, counter, table)
            == "https://www.justetf.com/en/etf-profile.html?"@ + counter
            + "-1.0-holdingsSection-"@ + table + "&isin="@ + isin + "&_wicket=1"@,
        requests::SECTORS_TABLE@ == "sectors-loadMoreSectors"@,
        requests::COUNTRIES_TABLE@ == "countries-loadMoreCountries"@,
{
    lemma_hosts();
}

/// A table is asked for as its profile page asks for it: with the headers of such a request, of
/// which two name the page, by the fund's ISIN.
pub proof fn tables_are_asked_for_from_their_page(isin: Seq<char>)
    ensures
        ({
            let headers = requests::table_headers(isin);
            &&& headers.len() == 5
            &&& headers[0] == ("X-Requested-With"@, "XMLHttpRequest"@)
            &&& headers[1] == ("Wicket-Ajax"@, "true"@)
            &&& headers[2].0 == "Wicket-Ajax-BaseURL"@
            &&& headers[2].1 == "en/etf-profile.html?isin="@ + isin
            &&& headers[3] == ("Accept"@, "application/xml, text/xml, */*; q=0.01"@)
            &&& headers[4].0 == "Referer"@
            &&& headers[4].1 == "https://www.justetf.com/en/etf-profile.html?isin="@ + isin
        }),
{
    lemma_hosts();
}

/// A plain request goes to the address that it is made for, through the client that it is made
/// for, and carries nothing.
pub proof fn plain_requests_carry_nothing(client: RequestClient, url: Seq<char>)
    ensures
        requests::get(client, url).client == client,
        requests::get(client, url).url == url,
        requests::get(client, url).headers.len() == 0,
        requests::get(client, url).form is None,
{
}

/// Other funds of ISINs as long as each other have other addresses, whatever the currency; and so
/// have other currencies of the same fund.
pub proof fn other_questions_have_other_addresses(
    isin: Seq<char>,
    other: Seq<char>,
    currency: Seq<char>,
    other_currency: Seq<char>,
)
    requires
        isin.len() == other.len(),
    ensures
        requests::quote_url(isin, currency) == requests::quote_url(other, other_currency) ==> isin
            == other && currency == other_currency,
        requests::chart_url(isin, currency) == requests::chart_url(other, other_currency) ==> isin
            == other && currency == other_currency,
        requests::profile_url(isin) == requests::profile_url(other) ==> isin == other,
{
    lemma_hosts();
    let api = "https://www.justetf.com/api/etfs/"@;
    let page = "https://www.justetf.com/en/etf-profile.html?isin="@;
    let quote = "/quote?locale=en&currency="@;
    let chart = "/performance-chart?locale=en&currency="@;
    let rest =
        "&valuesType=MARKET_VALUE&reduceData=false&includeDividends=true&features=DIVIDENDS"@;
    quotes_and_charts_are_asked_for_by_isin_and_currency(isin, currency);
    quotes_and_charts_are_asked_for_by_isin_and_currency(other, other_currency);
    profiles_and_tables_are_asked_for_by_isin(isin, isin, isin);
    profiles_and_tables_are_asked_for_by_isin(other, other, other);
    if requests::quote_url(isin, currency) == requests::quote_url(other, other_currency) {
        lemma_parts(api, isin, quote, currency, Seq::empty());
        lemma_parts(api, other, quote, other_currency, Seq::empty());
        assert(api + isin + quote + currency + Seq::empty() =~= requests::quote_url(
            isin,
            currency,
        ));
        assert(api + other + quote + other_currency + Seq::empty() =~= requests::quote_url(
            other,
            other_currency,
        ));
    }
    if requests::chart_url(isin, currency) == requests::chart_url(other, other_currency) {
        lemma_parts(api, isin, chart, currency, rest);
        lemma_parts(api, other, chart, other_currency, rest);
    }
    if requests::profile_url(isin) == requests::profile_url(other) {
        let url = requests::profile_url(isin);
        assert(url.skip(page.len() as int) =~= isin);
        assert(url.skip(page.len() as int) =~= other);
    }
}

/// The parts of a text that is put together can be cut out of it.
proof fn lemma_parts(
    first: Seq<char>,
    second: Seq<char>,
    third: Seq<char>,
    fourth: Seq<char>,
    fifth: Seq<char>,
)
    ensures
        ({
            let whole = first + second + third + fourth + fifth;
            let n = first.len() as int;
            let m = n + second.len() + third.len();
            &&& whole.subrange(n, n + second.len()) == second
            &&& whole.subrange(m, whole.len() - fifth.len()) == fourth
        }),
{
    let whole = first + second + third + fourth + fifth;
    let n = first.len() as int;
    let m = n + second.len() + third.len();
    assert(whole.subrange(n, n + second.len()) =~= second);
    assert(whole.subrange(m, whole.len() - fifth.len()) =~= fourth);
}

} // verus!
