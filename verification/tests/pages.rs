use just_etf::html::readable;
use just_etf::models::{AssetProfile, MarketDataError, ScreenerItem, ScreenerResponse, SearchResult};
use just_etf::profile::{
    add_weights, describe, parse_percentage, read_cdata_sections, read_yield, text_of_selected,
};
use just_etf::JustEtfProvider;

const SEARCH_LINK: &str = "-1.0-container-tabsContentContainer-tabsContentRepeater-1-container-content-etfsTablePanel&search=ETFS&_wicket=1";

const PROFILE_LINK: &str = "-1.0-holdingsSection-sectors-loadMoreSectors";

fn texts(parts: &[&str]) -> Vec<String> {
    parts.iter().map(|part| String::from(*part)).collect()
}

fn pairs(weights: &[(&str, &str)]) -> Vec<(String, String)> {
    weights.iter().map(|(name, weight)| (String::from(*name), String::from(*weight))).collect()
}

fn page(policy: &str, current_yield: &str) -> String {
    format!(
        "<html><head><meta name='description' content='  From the head  '></head><body>\
         <h1> iShares <span>Core</span> MSCI World </h1>\
         <table><tr data-testid='etf-basics_row_domicile-country'><td>Domicile</td>\
         <td class='val'> Ireland </td></tr>\
         <tr data-testid='etf-basics_row_distribution-policy'><td class='val'>{}</td></tr>\
         <tr data-testid='etf-basics_row_current-dividend-yield'><td class='val'>{}</td></tr>\
         </table></body></html>",
        policy, current_yield
    )
}

fn row(kind: &str, name: &str, percentage: &str) -> String {
    format!(
        "<tr data-testid='etf-holdings_{kind}_row'>\
         <td data-testid='tl_etf-holdings_{kind}_value_name'>{name}</td>\
         <td><span data-testid='tl_etf-holdings_{kind}_value_percentage'>{percentage}</span></td>\
         </tr>"
    )
}

#[test]
fn wicket_counter() {
    let provider = JustEtfProvider::new();
    let counter = |before: &str| {
        let html = format!("{}{}&more", before, SEARCH_LINK);
        assert!(provider.wicket_counter_is_readable(&html));
        provider.extract_wicket_counter(&html)
    };
    assert_eq!(counter("<a href=\"?12"), "12");
    assert_eq!(counter("<a href=\"?0012"), "12");
    assert_eq!(counter("<a href=\"?"), "0");
    assert_eq!(counter("?18446744073709551615"), "18446744073709551615");
    assert_eq!(counter("?18446744073709551616"), "0");
    assert_eq!(counter("12"), "0");
    assert_eq!(counter(""), "0");
    assert_eq!(counter("\u{e9}x7"), "7");
    assert_eq!(provider.extract_wicket_counter("<html>12</html>"), "0");
    // The first link counts.
    let html = format!("?3{}?4{}", SEARCH_LINK, SEARCH_LINK);
    assert_eq!(provider.extract_wicket_counter(&html), "3");
}

#[test]
fn counters_after_other_characters_cannot_be_read() {
    let provider = JustEtfProvider::new();
    assert!(!provider.wicket_counter_is_readable(&format!("\u{e9}12{}", SEARCH_LINK)));
    assert!(!provider.profile_page_counter_is_readable(&format!("\u{e9}{}", PROFILE_LINK)));
    assert!(provider.wicket_counter_is_readable("\u{e9}12"));
    assert!(provider.profile_page_counter_is_readable(&format!("12{}", PROFILE_LINK)));
}

#[test]
fn profile_page_counter() {
    let provider = JustEtfProvider::new();
    let html = format!("<a href='?0042{}'>", PROFILE_LINK);
    assert!(provider.profile_page_counter_is_readable(&html));
    assert_eq!(provider.extract_profile_page_counter(&html), "0042");
    assert_eq!(provider.extract_profile_page_counter(&format!("?{}", PROFILE_LINK)), "");
    assert_eq!(provider.extract_profile_page_counter(&format!("42{}", PROFILE_LINK)), "0");
    assert_eq!(provider.extract_profile_page_counter("no link"), "0");
}

#[test]
fn search_results() {
    let provider = JustEtfProvider::new();
    let response = ScreenerResponse {
        data: vec![
            ScreenerItem {
                isin: String::from("IE00B4L5Y983"),
                name: String::from("iShares Core MSCI World"),
                fund_currency: Some(String::from("USD")),
            },
            ScreenerItem {
                isin: String::from("GB00BJYDH287"),
                name: String::from("WisdomTree Physical Bitcoin"),
                fund_currency: None,
            },
        ],
    };
    let results = provider.search_etfs(&response);
    assert_eq!(
        results[0],
        SearchResult {
            symbol: String::from("IE00B4L5Y983"),
            name: String::from("iShares Core MSCI World"),
            exchange: String::new(),
            exchange_mic: None,
            exchange_name: None,
            asset_type: String::from("ETF"),
            currency: Some(String::from("USD")),
            data_source: Some(String::from("JUST_ETF")),
        }
    );
    assert_eq!(results[1].symbol, "GB00BJYDH287");
    assert_eq!(results[1].currency, None);
    assert_eq!(results.len(), 2);
    assert_eq!(provider.search_etfs(&ScreenerResponse { data: vec![] }), vec![]);
}

#[test]
fn name_and_domicile() {
    let provider = JustEtfProvider::new();
    let html = page("Distributing", "1.5%");
    assert_eq!(
        provider.extract_name(&html),
        Some(String::from("iShares  Core  MSCI World"))
    );
    assert_eq!(provider.extract_domicile(&html), Some(String::from("Ireland")));
    assert_eq!(provider.extract_name("<p>nothing</p>"), None);
    assert_eq!(provider.extract_domicile("<p>nothing</p>"), None);
    assert_eq!(provider.extract_name("<h1> </h1>"), Some(String::new()));
}

#[test]
fn descriptions() {
    let provider = JustEtfProvider::new();
    let head = page("Distributing", "1.5%");
    assert_eq!(provider.extract_description(&head), Some(String::from("From the head")));
    let label = format!(
        "{}<div data-testid='etf-quote-section_description-label'> The <b>fund</b> </div>",
        head
    );
    assert_eq!(provider.extract_description(&label), Some(String::from("The  fund")));
    let empty = format!("{}<p data-testid='etf-quote-section_description-label'> </p>", head);
    assert_eq!(provider.extract_description(&empty), Some(String::from("From the head")));
    assert_eq!(provider.extract_description("<meta name='description'>"), None);
    assert_eq!(provider.extract_description(""), None);
}

#[test]
fn describing() {
    let meta = || Some(String::from(" head "));
    assert_eq!(
        describe(&Some(Some(texts(&[" a", "b "]))), &meta()),
        Some(String::from("a b"))
    );
    assert_eq!(describe(&Some(Some(texts(&[" ", ""]))), &meta()), Some(String::from("head")));
    assert_eq!(describe(&Some(None), &meta()), Some(String::from("head")));
    assert_eq!(describe(&Some(None), &None), None);
    assert_eq!(describe(&None, &meta()), None);
}

#[test]
fn dividend_yields() {
    let provider = JustEtfProvider::new();
    let read = |policy: &str, current: &str| provider.extract_dividend_yield(&page(policy, current));
    assert_eq!(read("Distributing", " 1.53% "), Some(String::from("1.53")));
    assert_eq!(read("Distributing", "1,53%"), Some(String::from("1.53")));
    assert_eq!(read("Distributing", "1.5<b>3</b>%"), Some(String::from("1.53")));
    assert_eq!(read("Distributing", "n/a"), None);
    assert_eq!(read("Distributing", "1.53 %"), None);
    assert_eq!(read("Accumulating", "1.53%"), None);
    assert_eq!(read("income is ACCUMULATING here", "1.53%"), None);
    assert_eq!(provider.extract_dividend_yield("<p>nothing</p>"), None);
    let no_policy = "<table><tr data-testid='etf-basics_row_current-dividend-yield'>\
                     <td class='val'>1%</td></tr></table>";
    assert_eq!(provider.extract_dividend_yield(no_policy), None);
    let no_yield = "<table><tr data-testid='etf-basics_row_distribution-policy'>\
                    <td class='val'>Distributing</td></tr></table>";
    assert_eq!(provider.extract_dividend_yield(no_yield), None);
}

#[test]
fn yields_under_a_policy() {
    let current = || Some(Some(texts(&[" 2", ",5", "% "])));
    assert_eq!(read_yield("distributing", &current()), Some(String::from("2.5")));
    assert_eq!(read_yield("accumulating", &current()), None);
    assert_eq!(read_yield("distributing", &Some(None)), None);
    assert_eq!(read_yield("distributing", &None), None);
}

#[test]
fn percentages() {
    assert_eq!(parse_percentage("12,34%"), Some(String::from("12.34")));
    assert_eq!(parse_percentage("12%%"), Some(String::from("12")));
    assert_eq!(parse_percentage("%"), None);
    assert_eq!(parse_percentage("1.234,5%"), None);
    assert_eq!(parse_percentage("12 %"), None);
    assert_eq!(parse_percentage("-0.5"), Some(String::from("-0.5")));
}

#[test]
fn selected_texts() {
    assert_eq!(
        text_of_selected(&Some(Some(texts(&[" a", "b ", ""])))),
        Some(String::from("a b"))
    );
    assert_eq!(text_of_selected(&Some(None)), None);
    assert_eq!(text_of_selected(&None), None);
}

#[test]
fn cdata_sections() {
    assert_eq!(read_cdata_sections(""), Vec::<String>::new());
    assert_eq!(read_cdata_sections("<a>no</a>"), Vec::<String>::new());
    assert_eq!(read_cdata_sections("<a><![CDATA[one]]></a><![CDATA[]]>"), vec!["one", ""]);
    assert_eq!(read_cdata_sections("<![CDATA[a]]]><![CDATA[b"), vec!["a]"]);
    assert_eq!(read_cdata_sections("<![CDATA[<![CDATA[\u{e9}]]>]]>"), vec!["<![CDATA[\u{e9}"]);
}

#[test]
fn table_weights() {
    let provider = JustEtfProvider::new();
    let xml = format!(
        "<?xml version=\"1.0\"?><ajax-response><component id=\"a\"><![CDATA[<table>{}{}{}</table>]]>\
         </component><component id=\"b\"><![CDATA[<p>nothing</p>]]></component>\
         <component id=\"c\"><![CDATA[<table>{}{}</table>]]></component></ajax-response>",
        row("countries", " United States ", "71,5%"),
        row("countries", "Other", "28.5%"),
        row("countries", "Nowhere", "-"),
        row("sectors", "Technology &amp; Media", "25.75%"),
        row("sectors", "OTHER", "1%"),
    );
    assert_eq!(
        provider.parse_cdata_rows(&xml),
        pairs(&[("United States", "71.5"), ("Technology & Media", "25.75")])
    );
    assert_eq!(provider.parse_cdata_rows("<html></html>"), vec![]);
}

#[test]
fn pages_that_can_be_read() {
    let provider = JustEtfProvider::new();
    let html = page("Distributing", "1.5%");
    assert!(readable(&html));
    assert!(readable(""));
    assert!(provider.cdata_rows_are_readable(&html));
    assert!(provider.cdata_rows_are_readable("<![CDATA[one]]><![CDATA[two]]>"));
}

#[test]
fn replaced_characters() {
    // A NUL in an attribute and in the text of an SVG title.
    let provider = JustEtfProvider::new();
    let html = "<meta name='description' content='a\u{0}b'><h1>c&amp;<svg>\u{0}</svg></h1>";
    assert_eq!(provider.extract_description(html), Some(String::from("a\u{fffd}b")));
    assert_eq!(provider.extract_name(html), Some(String::from("c& \u{fffd}")));
    // A reference that takes up one byte more than its name.
    assert_eq!(
        provider.extract_name("<h1>&nLt;</h1>"),
        Some(String::from("\u{226a}\u{20d2}"))
    );
}

#[test]
fn rows_that_count() {
    let cells = |name: Option<&str>, percentage: Option<&str>| {
        (name.map(|name| texts(&[name])), percentage.map(|percentage| texts(&[percentage])))
    };
    let rows = vec![
        cells(Some(" Japan "), Some("6,1%")),
        cells(Some("other"), Some("5%")),
        cells(None, Some("4%")),
        cells(Some("France"), None),
        cells(Some("France"), Some("three")),
        cells(Some("Others"), Some("2%")),
    ];
    let mut weights = pairs(&[("first", "1")]);
    add_weights(&mut weights, &rows);
    assert_eq!(weights, pairs(&[("first", "1"), ("Japan", "6.1"), ("Others", "2")]));
}

#[test]
fn profiles() {
    let provider = JustEtfProvider::new();
    let html = page("Distributing", "1.53%");
    let profile = provider.parse_profile_html(
        &html,
        "IE00B4L5Y983",
        Ok(String::from("[1]")),
        Err(MarketDataError::NoDataForRange),
    );
    assert_eq!(
        profile,
        AssetProfile {
            source: Some(String::from("JUST_ETF")),
            name: Some(String::from("iShares  Core  MSCI World")),
            quote_type: Some(String::from("ETF")),
            description: Some(String::from("From the head")),
            country: Some(String::from("Ireland")),
            countries: None,
            sectors: Some(String::from("[1]")),
            isin: Some(String::from("IE00B4L5Y983")),
            dividend_yield: Some(String::from("1.53")),
        }
    );
    let empty = provider.parse_profile_html(
        "",
        "IE00B4L5Y983",
        Err(MarketDataError::NoDataForRange),
        Ok(String::from("[2]")),
    );
    assert_eq!(empty.isin.as_deref(), Some("IE00B4L5Y983"));
    assert_eq!(empty.name, None);
    assert_eq!(empty.countries.as_deref(), Some("[2]"));
    assert_eq!(empty.sectors, None);
    assert_eq!(empty.dividend_yield, None);
}
