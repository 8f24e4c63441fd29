//! The profile of a fund, read from its profile page and the tables that the page loads.

use vstd::prelude::*;
use vstd::string::*;

use crate::html;
use crate::models::{AssetProfile, AssetProfileView, MarketDataError};
use crate::number;
use crate::provider::{JustEtfProvider, PROVIDER_ID};
use crate::text;

verus! {

/// The heading of a profile page.
pub const NAME_SELECTOR: &'static str = "h1";

/// The description on a profile page.
pub const DESCRIPTION_SELECTOR: &'static str =
    "*[data-testid='etf-quote-section_description-label']";

/// The description in the head of a profile page.
pub const META_SELECTOR: &'static str = "meta[name='description']";

/// The country in which a fund is domiciled.
pub const DOMICILE_SELECTOR: &'static str =
    "tr[data-testid='etf-basics_row_domicile-country'] td.val";

/// What a fund does with its income.
pub const POLICY_SELECTOR: &'static str =
    "tr[data-testid='etf-basics_row_distribution-policy'] td.val";

/// The current dividend yield of a fund.
pub const YIELD_SELECTOR: &'static str =
    "tr[data-testid='etf-basics_row_current-dividend-yield'] td.val";

/// The rows of a table of countries or sectors.
pub const ROW_SELECTOR: &'static str =
    "tr[data-testid='etf-holdings_countries_row'], tr[data-testid='etf-holdings_sectors_row']";

/// The name in a row of a table.
pub const ROW_NAME_SELECTOR: &'static str =
    "*[data-testid='tl_etf-holdings_countries_value_name'], *[data-testid='tl_etf-holdings_sectors_value_name']";

/// The percentage in a row of a table.
pub const ROW_PERCENTAGE_SELECTOR: &'static str =
    "*[data-testid='tl_etf-holdings_countries_value_percentage'], *[data-testid='tl_etf-holdings_sectors_value_percentage']";

/// All the selectors are short enough to be read.
proof fn lemma_selectors_are_short()
    ensures
        NAME_SELECTOR@.len() <= html::SELECTOR_LIMIT,
        DESCRIPTION_SELECTOR@.len() <= html::SELECTOR_LIMIT,
        META_SELECTOR@.len() <= html::SELECTOR_LIMIT,
        DOMICILE_SELECTOR@.len() <= html::SELECTOR_LIMIT,
        POLICY_SELECTOR@.len() <= html::SELECTOR_LIMIT,
        YIELD_SELECTOR@.len() <= html::SELECTOR_LIMIT,
        ROW_SELECTOR@.len() <= html::SELECTOR_LIMIT,
        ROW_NAME_SELECTOR@.len() <= html::SELECTOR_LIMIT,
        ROW_PERCENTAGE_SELECTOR@.len() <= html::SELECTOR_LIMIT,
{
    reveal_strlit("h1");
    reveal_strlit("*[data-testid='etf-quote-section_description-label']");
    reveal_strlit("meta[name='description']");
    reveal_strlit("tr[data-testid='etf-basics_row_domicile-country'] td.val");
    reveal_strlit("tr[data-testid='etf-basics_row_distribution-policy'] td.val");
    reveal_strlit("tr[data-testid='etf-basics_row_current-dividend-yield'] td.val");
    reveal_strlit(
        "tr[data-testid='etf-holdings_countries_row'], tr[data-testid='etf-holdings_sectors_row']",
    );
    reveal_strlit(
        "*[data-testid='tl_etf-holdings_countries_value_name'], *[data-testid='tl_etf-holdings_sectors_value_name']",
    );
    reveal_strlit(
        "*[data-testid='tl_etf-holdings_countries_value_percentage'], *[data-testid='tl_etf-holdings_sectors_value_percentage']",
    );
}

/// What opens a CDATA section.
pub const CDATA_OPEN: &'static str = "<![CDATA[";

/// What closes a CDATA section.
pub const CDATA_CLOSE: &'static str = "]]>";

/// The text of an element: its text nodes with a space between each two, without the white space
/// around.
pub open spec fn element_text(texts: Seq<Seq<char>>) -> Seq<char> {
    text::trimmed(text::joined(texts, " "@))
}

/// The text of an element that was selected, if one was.
pub open spec fn selected_text(selected: Option<Option<Seq<Seq<char>>>>) -> Option<Seq<char>> {
    match selected {
        Some(Some(texts)) => Some(element_text(texts)),
        _ => None,
    }
}

/// The text of an element.
fn text_of(texts: &Vec<String>) -> (result: String)
    ensures
        result@ == element_text(texts.deep_view()),
{
    let whole = text::join(texts, " ");
    text::trim(whole.as_str())
}

/// The text of an element that was selected, if one was.
pub fn text_of_selected(selected: &Option<Option<Vec<String>>>) -> (result: Option<String>)
    ensures
        result.deep_view() == selected_text(selected.deep_view()),
{
    match selected {
        Some(Some(texts)) => Some(text_of(texts)),
        _ => None,
    }
}

/// The numeral in a percentage: the percent signs at its end are dropped, and commas become
/// points.
pub open spec fn percentage_numeral(percentage: Seq<char>) -> Seq<char> {
    text::points_for_commas(text::without_trailing(percentage, '%'))
}

/// The numeral in a percentage, if it reads as a number.
pub open spec fn read_percentage(percentage: Seq<char>) -> Option<Seq<char>> {
    if number::is_float_text(percentage_numeral(percentage)) {
        Some(percentage_numeral(percentage))
    } else {
        None
    }
}

/// The numeral in a percentage, if it reads as a number.
pub fn parse_percentage(percentage: &str) -> (numeral: Option<String>)
    ensures
        numeral.deep_view() == read_percentage(percentage@),
{
    let digits = text::trim_end_matches(percentage, '%');
    let numeral = text::commas_to_points(digits.as_str());
    if number::reads_as_float(numeral.as_str()) {
        Some(numeral)
    } else {
        None
    }
}

/// The description of a fund: the text of the page's label, or, where that is missing or empty,
/// the one in the page's head.
pub open spec fn description(
    label: Option<Option<Seq<Seq<char>>>>,
    meta: Option<Seq<char>>,
) -> Option<Seq<char>> {
    match label {
        Some(Some(texts)) if element_text(texts).len() > 0 => Some(element_text(texts)),
        Some(_) => match meta {
            Some(content) => Some(text::trimmed(content)),
            None => None,
        },
        None => None,
    }
}

/// The description of a fund from what was selected on its page.
pub fn describe(label: &Option<Option<Vec<String>>>, meta: &Option<String>) -> (result: Option<
    String,
>)
    ensures
        result.deep_view() == description(label.deep_view(), meta.deep_view()),
{
    match label {
        Some(element) => {
            if let Some(texts) = element {
                let label_text = text_of(texts);
                if !label_text.as_str().is_empty() {
                    return Some(label_text);
                }
            }
            match meta {
                Some(content) => Some(text::trim(content.as_str())),
                None => None,
            }
        },
        None => None,
    }
}

/// The yield of a fund whose distribution policy reads `policy` in small letters: none where the
/// fund accumulates its income, else the numeral in the text that was selected.
pub open spec fn yield_under_policy(
    policy: Seq<char>,
    current: Option<Option<Seq<Seq<char>>>>,
) -> Option<Seq<char>> {
    if text::contains_text(policy, "accumulating"@) {
        None
    } else {
        match current {
            Some(Some(texts)) => read_percentage(text::trimmed(text::joined(texts, ""@))),
            _ => None,
        }
    }
}

/// The yield of a fund whose distribution policy reads `policy` in small letters.
pub fn read_yield(policy: &str, current: &Option<Option<Vec<String>>>) -> (result: Option<String>)
    ensures
        result.deep_view() == yield_under_policy(policy@, current.deep_view()),
{
    if text::holds(policy, "accumulating") {
        return None;
    }
    match current {
        Some(Some(texts)) => {
            let whole = text::join(texts, "");
            let percentage = text::trim(whole.as_str());
            parse_percentage(percentage.as_str())
        },
        _ => None,
    }
}

/// The name on a profile page.
pub open spec fn name_on(document: Seq<char>) -> Option<Seq<char>> {
    selected_text(html::document_texts(document, NAME_SELECTOR@))
}

/// The description on a profile page.
pub open spec fn description_on(document: Seq<char>) -> Option<Seq<char>> {
    description(
        html::document_texts(document, DESCRIPTION_SELECTOR@),
        html::document_attribute(document, META_SELECTOR@, "content"@),
    )
}

/// The domicile on a profile page.
pub open spec fn domicile_on(document: Seq<char>) -> Option<Seq<char>> {
    selected_text(html::document_texts(document, DOMICILE_SELECTOR@))
}

/// The dividend yield on a profile page, which needs a distribution policy beside it.
pub open spec fn yield_on(document: Seq<char>) -> Option<Seq<char>> {
    match selected_text(html::document_texts(document, POLICY_SELECTOR@)) {
        Some(policy) => yield_under_policy(
            text::lowercased(policy),
            html::document_texts(document, YIELD_SELECTOR@),
        ),
        None => None,
    }
}

/// Where the distribution policy on a profile page is in ASCII, it is put into small letters by
/// making its ASCII capital letters small.
pub open spec fn small_letters_of_the_policy(document: Seq<char>) -> bool {
    match selected_text(html::document_texts(document, POLICY_SELECTOR@)) {
        Some(policy) => text::all_ascii(policy) ==> text::lowercased(policy) == policy.map_values(
            |c: char| text::ascii_lower(c),
        ),
        None => true,
    }
}

/// The distribution policy on a profile page is in ASCII and reads "accumulating", whatever the
/// case of its letters.
pub open spec fn plainly_accumulates(document: Seq<char>) -> bool {
    match selected_text(html::document_texts(document, POLICY_SELECTOR@)) {
        Some(policy) => text::all_ascii(policy) && text::contains_text(
            policy.map_values(|c: char| text::ascii_lower(c)),
            "accumulating"@,
        ),
        None => false,
    }
}

/// A row of a table with its name and percentage: each may be missing.
pub type RowTexts = (Option<Vec<String>>, Option<Vec<String>>);

/// The content of a [`RowTexts`].
pub type RowTextsView = (Option<Seq<Seq<char>>>, Option<Seq<Seq<char>>>);

/// The row has a name and a percentage, is not the one that sums up all others, and its
/// percentage reads as a number.
pub open spec fn row_counts(row: RowTextsView) -> bool {
    match row {
        (Some(name), Some(percentage)) => {
            &&& !text::same_ignoring_ascii_case(element_text(name), "Other"@)
            &&& read_percentage(element_text(percentage)) is Some
        },
        _ => false,
    }
}

/// The name of a row, and the numeral of its percentage.
pub open spec fn row_weight(row: RowTextsView) -> (Seq<char>, Seq<char>) {
    (element_text(row.0->0), percentage_numeral(element_text(row.1->0)))
}

/// The weights in the rows of a table, in their order.
pub open spec fn row_weights(rows: Seq<RowTextsView>) -> Seq<(Seq<char>, Seq<char>)> {
    rows.filter(|row: RowTextsView| row_counts(row)).map_values(
        |row: RowTextsView| row_weight(row),
    )
}

/// The weight in a row, if the row counts.
fn read_row(row: &RowTexts) -> (weight: Option<(String, String)>)
    ensures
        weight.deep_view() == if row_counts(row.deep_view()) {
            Some(row_weight(row.deep_view()))
        } else {
            None
        },
{
    if let (Some(name_texts), Some(percentage_texts)) = (&row.0, &row.1) {
        let name = text_of(name_texts);
        let percentage = text_of(percentage_texts);
        if text::eq_ignore_ascii_case(name.as_str(), "Other") {
            return None;
        }
        if let Some(numeral) = parse_percentage(percentage.as_str()) {
            return Some((name, numeral));
        }
    }
    None
}

/// Adds the weights in the rows of a table, in their order.
pub fn add_weights(weights: &mut Vec<(String, String)>, rows: &Vec<RowTexts>)
    ensures
        final(weights).deep_view() == old(weights).deep_view() + row_weights(rows.deep_view()),
{
    let ghost views = rows.deep_view();
    let ghost start = weights.deep_view();
    let ghost counts = |row: RowTextsView| row_counts(row);
    let ghost as_weight = |row: RowTextsView| row_weight(row);
    let mut i: usize = 0;
    proof {
        reveal(Seq::filter);
        assert(views.take(0).filter(counts) =~= Seq::empty());
        assert(weights.deep_view() =~= start + views.take(0).filter(counts).map_values(as_weight));
    }
    while i < rows.len()
        invariant
            i <= rows@.len(),
            views == rows.deep_view(),
            counts == |row: RowTextsView| row_counts(row),
            as_weight == |row: RowTextsView| row_weight(row),
            weights.deep_view() == start + views.take(i as int).filter(counts).map_values(
                as_weight,
            ),
        decreases rows@.len() - i,
    {
        let ghost before = views.take(i as int).filter(counts);
        let ghost earlier = weights.deep_view();
        proof {
            reveal(Seq::filter);
            assert(views.take(i + 1).drop_last() =~= views.take(i as int));
            assert(views.take(i + 1).last() == views[i as int]);
            assert(before.push(views[i as int]).map_values(as_weight) =~= before.map_values(
                as_weight,
            ).push(as_weight(views[i as int])));
        }
        if let Some(weight) = read_row(&rows[i]) {
            weights.push(weight);
            assert(weights.deep_view() =~= earlier.push(weight.deep_view()));
            assert(weights.deep_view() =~= start + before.push(views[i as int]).map_values(
                as_weight,
            ));
        }
        i += 1;
    }
    assert(views.take(i as int) =~= views);
}

/// What stands in the CDATA sections of `xml`, in their order; a section that is not closed ends
/// the search.
pub open spec fn cdata_sections(xml: Seq<char>) -> Seq<Seq<char>>
    decreases xml.len(),
{
    match text::first_occurrence(xml, CDATA_OPEN@) {
        Some(open) => {
            let content = xml.skip(open + CDATA_OPEN@.len());
            match text::first_occurrence(content, CDATA_CLOSE@) {
                Some(close) => {
                    let rest = content.skip(close + CDATA_CLOSE@.len());
                    proof {
                        lemma_section_is_shorter(xml, open, close);
                    }
                    seq![content.take(close)] + cdata_sections(rest)
                },
                None => Seq::empty(),
            }
        },
        None => Seq::empty(),
    }
}

/// What follows a CDATA section is shorter than the whole.
pub proof fn lemma_section_is_shorter(xml: Seq<char>, open: int, close: int)
    requires
        text::first_occurrence(xml, CDATA_OPEN@) == Some(open),
        text::first_occurrence(xml.skip(open + CDATA_OPEN@.len()), CDATA_CLOSE@) == Some(close),
    ensures
        xml.skip(open + CDATA_OPEN@.len()).skip(close + CDATA_CLOSE@.len()).len() < xml.len(),
{
    reveal_strlit("<![CDATA[");
    text::lemma_first_occurrence(xml, CDATA_OPEN@);
    text::lemma_first_occurrence(xml.skip(open + CDATA_OPEN@.len()), CDATA_CLOSE@);
}

/// The weights in one CDATA section.
pub open spec fn section_weights(section: Seq<char>) -> Seq<(Seq<char>, Seq<char>)> {
    match html::fragment_rows(
        section,
        ROW_SELECTOR@,
        ROW_NAME_SELECTOR@,
        ROW_PERCENTAGE_SELECTOR@,
    ) {
        Some(rows) => row_weights(rows),
        None => Seq::empty(),
    }
}

/// The weights in several CDATA sections, in their order.
pub open spec fn sections_weights(sections: Seq<Seq<char>>) -> Seq<(Seq<char>, Seq<char>)> {
    sections.map_values(|section: Seq<char>| section_weights(section)).flatten()
}

/// What stands in the CDATA sections of `xml`, in their order.
pub fn read_cdata_sections(xml: &str) -> (sections: Vec<String>)
    ensures
        sections.deep_view() == cdata_sections(xml@),
{
    let chars = text::chars_of(xml);
    let open_mark = text::chars_of(CDATA_OPEN);
    let close_mark = text::chars_of(CDATA_CLOSE);
    let length: usize = chars.len();
    let mut sections: Vec<String> = Vec::new();
    let mut from: usize = 0;
    assert(xml@.skip(0) =~= xml@);
    assert(sections.deep_view() + cdata_sections(xml@) =~= cdata_sections(xml@));
    loop
        invariant
            from <= chars@.len() == length,
            chars@ == xml@,
            open_mark@ == CDATA_OPEN@,
            close_mark@ == CDATA_CLOSE@,
            sections.deep_view() + cdata_sections(xml@.skip(from as int)) == cdata_sections(xml@),
        decreases length - from,
    {
        let ghost rest = xml@.skip(from as int);
        let ghost earlier = sections.deep_view();
        match text::find_from(&chars, &open_mark, from) {
            Some(open) => {
                let start: usize = from + open + open_mark.len();
                let ghost content = rest.skip(open + CDATA_OPEN@.len());
                assert(content =~= xml@.skip(start as int));
                match text::find_from(&chars, &close_mark, start) {
                    Some(close) => {
                        let end: usize = start + close;
                        let section = xml.substring_char(start, end).to_owned();
                        sections.push(section);
                        proof {
                            lemma_section_is_shorter(rest, open as int, close as int);
                            assert(content.take(close as int) =~= xml@.subrange(
                                start as int,
                                end as int,
                            ));
                            let next = content.skip(close + CDATA_CLOSE@.len());
                            assert(next =~= xml@.skip(end + CDATA_CLOSE@.len()));
                            assert(sections.deep_view() =~= earlier.push(section@));
                            assert(sections.deep_view() + cdata_sections(next) =~= earlier + (seq![
                                section@,
                            ] + cdata_sections(next)));
                        }
                        from = end + close_mark.len();
                    },
                    None => {
                        assert(sections.deep_view() + cdata_sections(rest)
                            =~= sections.deep_view());
                        return sections;
                    },
                }
            },
            None => {
                assert(sections.deep_view() + cdata_sections(rest) =~= sections.deep_view());
                return sections;
            },
        }
    }
}

/// Each of the CDATA sections of `xml` is short enough to be read.
pub open spec fn sections_are_readable(xml: Seq<char>) -> bool {
    forall|i: int|
        0 <= i < cdata_sections(xml).len() ==> html::is_readable(#[trigger] cdata_sections(xml)[i])
}

/// A text that is short enough to be read has only such CDATA sections.
pub proof fn short_tables_are_readable(xml: Seq<char>)
    requires
        html::is_readable(xml),
    ensures
        sections_are_readable(xml),
    decreases xml.len(),
{
    if let Some(open) = text::first_occurrence(xml, CDATA_OPEN@) {
        let start = open + CDATA_OPEN@.len();
        let content = xml.skip(start);
        if let Some(close) = text::first_occurrence(content, CDATA_CLOSE@) {
            let after = close + CDATA_CLOSE@.len();
            let rest = content.skip(after);
            text::lemma_first_occurrence(xml, CDATA_OPEN@);
            text::lemma_first_occurrence(content, CDATA_CLOSE@);
            lemma_section_is_shorter(xml, open, close);
            assert(content.take(close) =~= xml.subrange(start, start + close));
            assert(rest =~= xml.subrange(start + after, xml.len() as int));
            html::parts_are_readable(xml, start, start + close);
            html::parts_are_readable(xml, start + after, xml.len() as int);
            short_tables_are_readable(rest);
            assert forall|i: int| 0 <= i < cdata_sections(xml).len() implies html::is_readable(
                #[trigger] cdata_sections(xml)[i],
            ) by {
                if i > 0 {
                    assert(cdata_sections(xml)[i] == cdata_sections(rest)[i - 1]);
                }
            }
        }
    }
}

/// A table that was asked for beside a profile page; where that failed, there is none.
pub open spec fn table_of(table: Result<String, MarketDataError>) -> Option<Seq<char>> {
    match table {
        Ok(weights) => Some(weights@),
        Err(_) => None,
    }
}

/// A table that was asked for beside a profile page; where that failed, there is none.
fn table_text(table: Result<String, MarketDataError>) -> (text: Option<String>)
    ensures
        text.deep_view() == table_of(table),
{
    match table {
        Ok(weights) => Some(weights),
        Err(_) => None,
    }
}

impl JustEtfProvider {
    /// Each of the CDATA sections of `xml` is short enough to be read.
    pub fn cdata_rows_are_readable(&self, xml: &str) -> (answer: bool)
        ensures
            answer == sections_are_readable(xml@),
    {
        let sections = read_cdata_sections(xml);
        let ghost views = sections.deep_view();
        let mut i: usize = 0;
        while i < sections.len()
            invariant
                i <= sections@.len(),
                views == sections.deep_view(),
                views == cdata_sections(xml@),
                forall|j: int| 0 <= j < i ==> html::is_readable(#[trigger] views[j]),
            decreases sections@.len() - i,
        {
            if !html::readable(sections[i].as_str()) {
                assert(!html::is_readable(cdata_sections(xml@)[i as int]));
                return false;
            }
            i += 1;
        }
        true
    }

    /// The weights in the tables that `xml` carries in its CDATA sections: each with its name and
    /// the numeral of its percentage.
    pub fn parse_cdata_rows(&self, xml: &str) -> (weights: Vec<(String, String)>)
        requires
            sections_are_readable(xml@),
        ensures
            weights.deep_view() == sections_weights(cdata_sections(xml@)),
    {
        let sections = read_cdata_sections(xml);
        let ghost views = sections.deep_view();
        let ghost weigh = |section: Seq<char>| section_weights(section);
        let mut weights: Vec<(String, String)> = Vec::new();
        let mut i: usize = 0;
        assert(weights.deep_view() =~= views.take(0).map_values(weigh).flatten());
        while i < sections.len()
            invariant
                i <= sections@.len(),
                views == sections.deep_view(),
                views == cdata_sections(xml@),
                sections_are_readable(xml@),
                weigh == |section: Seq<char>| section_weights(section),
                weights.deep_view() == views.take(i as int).map_values(weigh).flatten(),
            decreases sections@.len() - i,
        {
            let section = sections[i].as_str();
            proof {
                lemma_selectors_are_short();
                assert(section@ == views[i as int]);
                let before = views.take(i as int).map_values(weigh);
                assert(views.take(i + 1).map_values(weigh) =~= before.push(weigh(section@)));
                before.lemma_flatten_push(weigh(section@));
            }
            let ghost earlier = weights.deep_view();
            if let Some(rows) = html::select_rows(
                section,
                ROW_SELECTOR,
                ROW_NAME_SELECTOR,
                ROW_PERCENTAGE_SELECTOR,
            ) {
                add_weights(&mut weights, &rows);
            }
            assert(weights.deep_view() =~= earlier + section_weights(section@));
            i += 1;
        }
        assert(views.take(i as int) =~= views);
        weights
    }

    /// The name on a profile page.
    pub fn extract_name(&self, document: &str) -> (name: Option<String>)
        requires
            html::is_readable(document@),
        ensures
            name.deep_view() == name_on(document@),
    {
        proof {
            lemma_selectors_are_short();
        }
        text_of_selected(&html::select_texts(document, NAME_SELECTOR))
    }

    /// The description on a profile page.
    pub fn extract_description(&self, document: &str) -> (result: Option<String>)
        requires
            html::is_readable(document@),
        ensures
            result.deep_view() == description_on(document@),
    {
        proof {
            lemma_selectors_are_short();
        }
        let label = html::select_texts(document, DESCRIPTION_SELECTOR);
        let meta = html::select_attribute(document, META_SELECTOR, "content");
        describe(&label, &meta)
    }

    /// The domicile on a profile page.
    pub fn extract_domicile(&self, document: &str) -> (domicile: Option<String>)
        requires
            html::is_readable(document@),
        ensures
            domicile.deep_view() == domicile_on(document@),
    {
        proof {
            lemma_selectors_are_short();
        }
        text_of_selected(&html::select_texts(document, DOMICILE_SELECTOR))
    }

    /// The numeral of the dividend yield on a profile page, in percent.
    pub fn extract_dividend_yield(&self, document: &str) -> (result: Option<String>)
        requires
            html::is_readable(document@),
        ensures
            result.deep_view() == yield_on(document@),
            small_letters_of_the_policy(document@),
            plainly_accumulates(document@) ==> result is None,
    {
        proof {
            lemma_selectors_are_short();
        }
        match text_of_selected(&html::select_texts(document, POLICY_SELECTOR)) {
            Some(policy) => {
                let policy = text::to_lowercase(policy.as_str());
                let current = html::select_texts(document, YIELD_SELECTOR);
                read_yield(policy.as_str(), &current)
            },
            None => None,
        }
    }

    /// The profile of the fund `isin` from its profile page and what came of asking for the
    /// weights of its sectors and countries.
    pub fn parse_profile_html(
        &self,
        html: &str,
        isin: &str,
        sectors: Result<String, MarketDataError>,
        countries: Result<String, MarketDataError>,
    ) -> (profile: AssetProfile)
        requires
            html::is_readable(html@),
        ensures
            profile.deep_view() == profile_of(html@, isin@, table_of(sectors), table_of(countries)),
            small_letters_of_the_policy(html@),
            plainly_accumulates(html@) ==> profile.dividend_yield is None,
    {
        AssetProfile {
            source: Some(PROVIDER_ID.to_owned()),
            name: self.extract_name(html),
            quote_type: Some("ETF".to_owned()),
            description: self.extract_description(html),
            country: self.extract_domicile(html),
            countries: table_text(countries),
            sectors: table_text(sectors),
            isin: Some(isin.to_owned()),
            dividend_yield: self.extract_dividend_yield(html),
        }
    }
}

/// The profile of the fund `isin` from its profile page and the weights of its sectors and
/// countries.
pub open spec fn profile_of(
    page: Seq<char>,
    isin: Seq<char>,
    sectors: Option<Seq<char>>,
    countries: Option<Seq<char>>,
) -> AssetProfileView {
    AssetProfileView {
        source: Some(PROVIDER_ID@),
        name: name_on(page),
        quote_type: Some("ETF"@),
        description: description_on(page),
        country: domicile_on(page),
        countries,
        sectors,
        isin: Some(isin),
        dividend_yield: yield_on(page),
    }
}

/// What is put into a CDATA section is read back, and what follows the section is read as if it
/// stood alone.
pub proof fn cdata_section_reads_back(before: Seq<char>, content: Seq<char>, rest: Seq<char>)
    requires
        !text::contains_text(before, CDATA_OPEN@),
        !text::contains_text(content, CDATA_CLOSE@),
    ensures
        cdata_sections(before + CDATA_OPEN@ + content + CDATA_CLOSE@ + rest) == seq![content]
            + cdata_sections(rest),
{
    reveal_strlit("<![CDATA[");
    reveal_strlit("]]>");
    let open = CDATA_OPEN@;
    let close = CDATA_CLOSE@;
    let xml = before + open + content + close + rest;
    assert(open[0] == '<');
    assert forall|k: int| 0 < k < open.len() implies #[trigger] open.skip(k) != open.take(
        open.len() - k,
    ) by {
        assert(open.skip(k)[0] == open[k]);
        assert(open.take(open.len() - k)[0] == open[0]);
        assert(open[k] != '<');
    }
    assert forall|k: int| 0 < k < close.len() implies #[trigger] close.skip(k) != close.take(
        close.len() - k,
    ) by {
        let i = close.len() - k - 1;
        assert(close.skip(k)[i] == '>');
        assert(close.take(close.len() - k)[i] == ']');
    }
    text::lemma_first_occurrence_after(before, open, content + close + rest);
    assert(before + open + (content + close + rest) =~= xml);
    text::lemma_first_occurrence_after(content, close, rest);
    let after_open = xml.skip(before.len() as int + open.len());
    assert(after_open =~= content + close + rest);
    assert(after_open.take(content.len() as int) =~= content);
    assert(after_open.skip(content.len() as int + close.len()) =~= rest);
}

/// A text without CDATA sections carries no weights.
pub proof fn no_weights_without_sections(xml: Seq<char>)
    requires
        !text::contains_text(xml, CDATA_OPEN@),
    ensures
        sections_weights(cdata_sections(xml)) == Seq::<(Seq<char>, Seq<char>)>::empty(),
{
    assert(cdata_sections(xml).map_values(|section: Seq<char>| section_weights(section))
        =~= Seq::empty());
}

/// No weight of a table is that of the row which sums up all others, and each has a percentage
/// that reads as a number.
pub proof fn weights_are_sound(rows: Seq<RowTextsView>)
    ensures
        forall|i: int|
            0 <= i < row_weights(rows).len() ==> {
                &&& !text::same_ignoring_ascii_case((#[trigger] row_weights(rows)[i]).0, "Other"@)
                &&& number::is_float_text(row_weights(rows)[i].1)
            },
{
    let counts = |row: RowTextsView| row_counts(row);
    let kept = rows.filter(counts);
    assert forall|i: int| 0 <= i < row_weights(rows).len() implies !text::same_ignoring_ascii_case(
        (#[trigger] row_weights(rows)[i]).0,
        "Other"@,
    ) && number::is_float_text(row_weights(rows)[i].1) by {
        assert(counts(kept[i]));
        assert(row_weights(rows)[i] == row_weight(kept[i]));
    }
}

/// Every row that has a name other than that of the summing row, and a percentage that reads as a
/// number, is among the weights.
pub proof fn weights_are_complete(rows: Seq<RowTextsView>, i: int)
    requires
        0 <= i < rows.len(),
        row_counts(rows[i]),
    ensures
        row_weights(rows).contains(row_weight(rows[i])),
{
    let counts = |row: RowTextsView| row_counts(row);
    let kept = rows.filter(counts);
    assert(counts(rows[i]));
    assert(kept.contains(rows[i]));
    let j = choose|j: int| 0 <= j < kept.len() && kept[j] == rows[i];
    assert(row_weights(rows)[j] == row_weight(rows[i]));
}

/// A fund that accumulates its income has no dividend yield, whatever its page shows.
pub proof fn accumulating_funds_yield_nothing(page: Seq<char>, policy: Seq<char>)
    requires
        selected_text(html::document_texts(page, POLICY_SELECTOR@)) == Some(policy),
        text::contains_text(text::lowercased(policy), "accumulating"@),
    ensures
        yield_on(page) is None,
{
}

/// A dividend yield in a profile reads as a number.
pub proof fn yields_read_as_numbers(page: Seq<char>)
    ensures
        yield_on(page) matches Some(numeral) ==> number::is_float_text(numeral),
{
}

/// A label with a text describes the fund, whatever stands in the page's head.
pub proof fn label_describes_the_fund(texts: Seq<Seq<char>>, meta: Option<Seq<char>>)
    requires
        element_text(texts).len() > 0,
    ensures
        description(Some(Some(texts)), meta) == Some(element_text(texts)),
{
}

/// Whatever the page shows, the profile is that of the fund asked for, from this provider, and of
/// an ETF; and the tables are handed on as they are.
pub proof fn profile_is_of_the_fund(
    page: Seq<char>,
    isin: Seq<char>,
    sectors: Option<Seq<char>>,
    countries: Option<Seq<char>>,
)
    ensures
        ({
            let profile = profile_of(page, isin, sectors, countries);
            &&& profile.isin == Some(isin)
            &&& profile.source == Some(PROVIDER_ID@)
            &&& profile.quote_type == Some("ETF"@)
            &&& profile.sectors == sectors
            &&& profile.countries == countries
        }),
{
}

/// A table that could not be had costs the profile nothing but that table.
pub proof fn missing_tables_cost_only_themselves(
    page: Seq<char>,
    isin: Seq<char>,
    sectors: Option<Seq<char>>,
    countries: Option<Seq<char>>,
    error: MarketDataError,
)
    ensures
        profile_of(page, isin, table_of(Err(error)), countries) == (AssetProfileView {
            sectors: None,
            ..profile_of(page, isin, sectors, countries)
        }),
        profile_of(page, isin, sectors, table_of(Err(error))) == (AssetProfileView {
            countries: None,
            ..profile_of(page, isin, sectors, countries)
        }),
{
}

} // verus!
