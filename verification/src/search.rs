//! The funds that a search finds.

use vstd::prelude::*;
use vstd::string::*;

use crate::models::{ScreenerItem, ScreenerResponse, SearchResult, SearchResultView};
use crate::provider::{JustEtfProvider, PROVIDER_ID};

verus! {

/// A fund of the search endpoint as a search result: its symbol is its ISIN, and no exchange is
/// known.
pub open spec fn result_of(item: ScreenerItem) -> SearchResultView {
    SearchResultView {
        symbol: item.isin@,
        name: item.name@,
        exchange: Seq::empty(),
        exchange_mic: None,
        exchange_name: None,
        asset_type: "ETF"@,
        currency: item.fund_currency.deep_view(),
        data_source: Some(PROVIDER_ID@),
    }
}

/// The funds of a response as search results, in their order.
pub open spec fn results_of(response: ScreenerResponse) -> Seq<SearchResultView> {
    response.data@.map_values(|item: ScreenerItem| result_of(item))
}

impl JustEtfProvider {
    /// The funds of a response as search results, in their order.
    pub fn search_etfs(&self, response: &ScreenerResponse) -> (results: Vec<SearchResult>)
        ensures
            results.deep_view() == results_of(*response),
    {
        let ghost expected = results_of(*response);
        let mut results: Vec<SearchResult> = Vec::new();
        let mut i: usize = 0;
        assert(results.deep_view() =~= expected.take(0));
        while i < response.data.len()
            invariant
                i <= response.data@.len(),
                expected == results_of(*response),
                results.deep_view() == expected.take(i as int),
            decreases response.data@.len() - i,
        {
            let ghost earlier = results.deep_view();
            let item = &response.data[i];
            let result = SearchResult {
                symbol: item.isin.clone(),
                name: item.name.clone(),
                exchange: String::new(),
                exchange_mic: None,
                exchange_name: None,
                asset_type: "ETF".to_owned(),
                currency: match &item.fund_currency {
                    Some(currency) => Some(currency.clone()),
                    None => None,
                },
                data_source: Some(PROVIDER_ID.to_owned()),
            };
            results.push(result);
            proof {
                assert(results.deep_view() =~= earlier.push(result.deep_view()));
                assert(expected.take(i + 1) =~= expected.take(i as int).push(expected[i as int]));
            }
            i += 1;
        }
        assert(expected.take(i as int) =~= expected);
        results
    }
}

/// A search result stands for each fund of the response, in its place, under the fund's ISIN and
/// name, and names this provider as its source.
pub proof fn results_match_the_response(response: ScreenerResponse)
    ensures
        results_of(response).len() == response.data@.len(),
        forall|i: int|
            0 <= i < response.data@.len() ==> {
                &&& (#[trigger] results_of(response)[i]).symbol == response.data@[i].isin@
                &&& results_of(response)[i].name == response.data@[i].name@
                &&& results_of(response)[i].asset_type == "ETF"@
                &&& results_of(response)[i].data_source == Some(PROVIDER_ID@)
            },
{
}

} // verus!
