//! What the provider is, and what it is asked.

use vstd::prelude::*;
use vstd::string::*;

use crate::models::{ProviderInstrument, QuoteContext};
use crate::provider;
use crate::provider::JustEtfProvider;

verus! {

/// An instrument has an ISIN if it is a share or fund, and then its symbol is the ISIN.
pub proof fn symbols_are_isins(instrument: ProviderInstrument)
    ensures
        instrument matches ProviderInstrument::EquitySymbol { symbol } ==> provider::isin_of(
            instrument,
        ) == Some(symbol@),
        instrument is Other ==> provider::isin_of(instrument) is None,
{
}

/// The currency of a hint is asked for as it stands, whatever the instrument; without a hint it is
/// the euro.
pub proof fn hinted_currencies_are_asked_for(context: QuoteContext)
    ensures
        context.currency_hint matches Some(currency) ==> provider::currency_of(context)
            == currency@,
        context.currency_hint is None ==> provider::currency_of(context) == "EUR"@,
        provider::DEFAULT_CURRENCY@ == "EUR"@,
{
}

/// The provider goes by one name.
pub proof fn the_provider_has_its_name()
    ensures
        provider::PROVIDER_ID@ == "JUST_ETF"@,
{
}

/// Both clients wait thirty seconds and name the same browser. The one for the endpoints asks for
/// JSON and keeps no cookies; the one for the pages asks for nothing special and keeps them.
pub proof fn clients_are_set_up_for_what_they_ask(made: JustEtfProvider)
    requires
        made.has_standard_settings(),
    ensures
        made.client.timeout_secs == 30,
        made.ajax_client.timeout_secs == 30,
        made.client.user_agent@
            == "Mozilla/5.0 (Windows NT 10.0; Win64; x64) AppleWebKit/537.36 (KHTML, like Gecko) Chrome/131.0.0.0 Safari/537.36"@,
        made.ajax_client.user_agent@ == made.client.user_agent@,
        made.client.accept matches Some(accept) && accept@ == "application/json"@,
        made.ajax_client.accept is None,
        !made.client.cookie_store,
        made.ajax_client.cookie_store,
{
}

} // verus!
