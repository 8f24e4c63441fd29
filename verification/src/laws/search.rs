//! What search results are in terms of the funds that the search endpoint answers with.

use vstd::prelude::*;
use vstd::string::*;

use crate::models::ScreenerResponse;
use crate::search;

verus! {

/// There is one result for each fund, in its place: under its own ISIN and name, in its own
/// currency where it has one and in none where it has none, as an ETF, from this provider, and
/// without an exchange.
pub proof fn each_result_tells_of_its_own_fund(response: ScreenerResponse, i: int)
    requires
        0 <= i < response.data@.len(),
    ensures
        search::results_of(response).len() == response.data@.len(),
        ({
            let result = search::results_of(response)[i];
            let fund = response.data@[i];
            &&& result.symbol == fund.isin@
            &&& result.name == fund.name@
            &&& result.currency is Some <==> fund.fund_currency is Some
            &&& fund.fund_currency is Some ==> result.currency->0 == fund.fund_currency->0@
            &&& result.asset_type == "ETF"@
            &&& result.data_source == Some("JUST_ETF"@)
            &&& result.exchange.len() == 0
            &&& result.exchange_mic is None
            &&& result.exchange_name is None
        }),
{
}

/// Where two responses have the same fund, each in its own place, they have the same result there,
/// whatever other funds are found.
pub proof fn results_do_not_depend_on_other_funds(
    response: ScreenerResponse,
    other: ScreenerResponse,
    i: int,
    j: int,
)
    requires
        0 <= i < response.data@.len(),
        0 <= j < other.data@.len(),
        response.data@[i] == other.data@[j],
    ensures
        search::results_of(response)[i] == search::results_of(other)[j],
{
}

/// A response without funds gives no results.
pub proof fn no_funds_no_results(response: ScreenerResponse)
    ensures
        search::results_of(response).len() == 0 <==> response.data@.len() == 0,
{
}

} // verus!
