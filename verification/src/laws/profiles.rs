//! What a profile holds of the page and of the tables that it is read from.

use vstd::prelude::*;
use vstd::string::*;

use crate::html;
use crate::laws::selection;
use crate::laws::texts;
use crate::models::MarketDataError;
use crate::number;
use crate::profile;
use crate::profile::RowTextsView;
use crate::text;

verus! {

/// `numeral` is what is left of `percentage` without the percent signs at its end, character by
/// character, but with a point in place of each comma.
pub open spec fn is_numeral_of(numeral: Seq<char>, percentage: Seq<char>) -> bool {
    &&& numeral.len() <= percentage.len()
    &&& forall|i: int|
        numeral.len() <= i < percentage.len() ==> #[trigger] percentage[i] == '%'
    &&& numeral.len() > 0 ==> percentage[numeral.len() - 1] != '%'
    &&& forall|i: int|
        0 <= i < numeral.len() ==> #[trigger] numeral[i] == if percentage[i] == ',' {
            '.'
        } else {
            percentage[i]
        }
}

/// The numeral of a percentage is the percentage's own text.
pub proof fn numerals_are_the_text_of_percentages(percentage: Seq<char>)
    ensures
        is_numeral_of(profile::percentage_numeral(percentage), percentage),
{
    let rest = text::without_trailing(percentage, '%');
    texts::only_marks_at_the_end_are_dropped(percentage, '%');
    texts::only_commas_are_replaced(rest);
    assert forall|i: int| 0 <= i < rest.len() implies rest[i] == percentage[i] by {}
}

/// A percentage has no two numerals.
pub proof fn percentages_have_one_numeral(
    numeral: Seq<char>,
    other: Seq<char>,
    percentage: Seq<char>,
)
    requires
        is_numeral_of(numeral, percentage),
        is_numeral_of(other, percentage),
    ensures
        numeral == other,
{
    if numeral.len() < other.len() {
        assert(percentage[other.len() - 1] == '%');
    } else if other.len() < numeral.len() {
        assert(percentage[numeral.len() - 1] == '%');
    }
    assert(numeral =~= other);
}

/// A percentage is read, as its numeral, if and only if the numeral reads as a number.
pub proof fn percentages_are_read_as_their_numerals(percentage: Seq<char>, numeral: Seq<char>)
    requires
        is_numeral_of(numeral, percentage),
    ensures
        profile::read_percentage(percentage) == if number::is_float_text(numeral) {
            Some(numeral)
        } else {
            None
        },
{
    numerals_are_the_text_of_percentages(percentage);
    percentages_have_one_numeral(
        numeral,
        profile::percentage_numeral(percentage),
        percentage,
    );
}

/// Digits before percent signs are read as they stand.
pub proof fn plain_percentages_are_read_as_they_stand(digits: Seq<char>, signs: Seq<char>)
    requires
        number::is_float_text(digits),
        forall|i: int| 0 <= i < digits.len() ==> #[trigger] digits[i] != '%' && digits[i] != ',',
        forall|i: int| 0 <= i < signs.len() ==> #[trigger] signs[i] == '%',
    ensures
        profile::read_percentage(digits + signs) == Some(digits),
{
    let whole = digits + signs;
    assert forall|i: int| digits.len() <= i < whole.len() implies #[trigger] whole[i] == '%' by {
        assert(signs[i - digits.len()] == '%');
    }
    if digits.len() > 0 {
        assert(whole[digits.len() - 1] == digits[digits.len() - 1]);
    }
    assert forall|i: int| 0 <= i < digits.len() implies #[trigger] digits[i] == if whole[i]
        == ',' {
        '.'
    } else {
        whole[i]
    } by {
        assert(whole[i] == digits[i]);
    }
    percentages_are_read_as_their_numerals(whole, digits);
}

/// The text of an element is that of its text nodes, with a space between each two and without
/// the white space around; that of one node is the node's.
pub proof fn text_nodes_have_a_space_between_them(
    first: Seq<Seq<char>>,
    second: Seq<Seq<char>>,
    node: Seq<char>,
)
    ensures
        profile::element_text(seq![node]) == text::trimmed(node),
        profile::element_text(Seq::empty()).len() == 0,
        first.len() > 0 && second.len() > 0 ==> profile::element_text(first + second)
            == text::trimmed(
            text::joined(first, seq![' ']) + seq![' '] + text::joined(second, seq![' ']),
        ),
{
    reveal_strlit(" ");
    assert(" "@ =~= seq![' ']);
    texts::joined_parts_have_the_separator_between_them(first, second, node, " "@);
}

/// An element that was selected has the text of its nodes; where none was, there is no text.
pub proof fn selected_elements_have_their_text(texts: Seq<Seq<char>>)
    ensures
        profile::selected_text(Some(Some(texts))) == Some(profile::element_text(texts)),
        profile::selected_text(Some(None)) is None,
        profile::selected_text(None) is None,
{
}

/// A fund is described by the label, where it has a text; else, where a label can be looked for,
/// by what the page's head says, without the white space around.
pub proof fn the_head_describes_funds_without_a_label(
    texts: Seq<Seq<char>>,
    content: Seq<char>,
    meta: Option<Seq<char>>,
)
    ensures
        profile::element_text(texts).len() > 0 ==> profile::description(Some(Some(texts)), meta)
            == Some(profile::element_text(texts)),
        profile::element_text(texts).len() == 0 ==> profile::description(
            Some(Some(texts)),
            Some(content),
        ) == Some(text::trimmed(content)),
        profile::description(Some(None), Some(content)) == Some(text::trimmed(content)),
        profile::description(Some(None), None) is None,
        profile::element_text(texts).len() == 0 ==> profile::description(
            Some(Some(texts)),
            None,
        ) is None,
        profile::description(None, meta) is None,
{
}

/// Texts joined with nothing between them are the texts one after the other.
proof fn lemma_joined_without_separator(texts: Seq<Seq<char>>)
    ensures
        text::joined(texts, Seq::empty()) == texts.flatten(),
    decreases texts.len(),
{
    if texts.len() == 0 {
        assert(texts.flatten() =~= Seq::empty());
    } else {
        let front = texts.drop_last();
        lemma_joined_without_separator(front);
        assert(texts =~= front.push(texts.last()));
        front.lemma_flatten_push(texts.last());
        if texts.len() == 1 {
            assert(front.flatten() =~= Seq::empty());
            assert(texts.first() == texts.last());
            assert(texts.flatten() =~= texts.first());
        } else {
            assert(text::joined(texts, Seq::empty()) =~= texts.flatten());
        }
    }
}

/// A fund whose policy, in small letters, reads "accumulating" somewhere has no yield. Any other
/// has the yield that the page shows, all its text nodes put together, where that reads as a
/// percentage.
pub proof fn yields_are_shown_unless_income_accumulates(
    policy: Seq<char>,
    current: Option<Option<Seq<Seq<char>>>>,
)
    ensures
        (exists|at: int| texts::reads_at(policy, "accumulating"@, at))
            ==> profile::yield_under_policy(policy, current) is None,
        !(exists|at: int| texts::reads_at(policy, "accumulating"@, at)) ==> {
            &&& current matches Some(Some(nodes)) ==> profile::yield_under_policy(policy, current)
                == profile::read_percentage(text::trimmed(nodes.flatten()))
            &&& !(current matches Some(Some(nodes))) ==> profile::yield_under_policy(
                policy,
                current,
            ) is None
        },
{
    texts::held_patterns_can_be_read(policy, "accumulating"@);
    if let Some(Some(nodes)) = current {
        reveal_strlit("");
        assert(""@ =~= Seq::empty());
        lemma_joined_without_separator(nodes);
    }
}

/// The name, the description and the domicile are what stands in their places on the page.
pub proof fn facts_are_read_in_their_places(page: Seq<char>)
    ensures
        profile::name_on(page) == profile::selected_text(html::document_texts(page, "h1"@)),
        profile::description_on(page) == profile::description(
            html::document_texts(page, "*[data-testid='etf-quote-section_description-label']"@),
            html::document_attribute(page, "meta[name='description']"@, "content"@),
        ),
        profile::domicile_on(page) == profile::selected_text(
            html::document_texts(
                page,
                "tr[data-testid='etf-basics_row_domicile-country'] td.val"@,
            ),
        ),
{
}

/// The yield is what stands in its place on the page, under the policy that stands in its own; on
/// a page without a policy there is no yield.
pub proof fn yields_are_read_beside_their_policy(page: Seq<char>)
    ensures
        ({
            let policy = profile::selected_text(
                html::document_texts(
                    page,
                    "tr[data-testid='etf-basics_row_distribution-policy'] td.val"@,
                ),
            );
            &&& policy is None ==> profile::yield_on(page) is None
            &&& policy matches Some(policy) ==> profile::yield_on(page)
                == profile::yield_under_policy(
                text::lowercased(policy),
                html::document_texts(
                    page,
                    "tr[data-testid='etf-basics_row_current-dividend-yield'] td.val"@,
                ),
            )
        }),
{
}

/// A profile tells of the fund asked for what its own page and its own tables say, each in its own
/// field.
pub proof fn profiles_hold_each_fact_in_its_field(
    page: Seq<char>,
    isin: Seq<char>,
    sectors: Option<Seq<char>>,
    countries: Option<Seq<char>>,
)
    ensures
        ({
            let made = profile::profile_of(page, isin, sectors, countries);
            &&& made.source == Some("JUST_ETF"@)
            &&& made.quote_type == Some("ETF"@)
            &&& made.isin == Some(isin)
            &&& made.name == profile::name_on(page)
            &&& made.description == profile::description_on(page)
            &&& made.country == profile::domicile_on(page)
            &&& made.dividend_yield == profile::yield_on(page)
            &&& made.sectors == sectors
            &&& made.countries == countries
        }),
{
}

/// A table that came is taken as it is, and one that did not come is missing.
pub proof fn tables_are_taken_as_they_are(weights: String, error: MarketDataError)
    ensures
        profile::table_of(Ok(weights)) == Some(weights@),
        profile::table_of(Err(error)) is None,
{
}

/// The row at position `i` has a name other than that of the row for all the rest, whatever the
/// case of its letters, and a percentage whose numeral reads as a number.
pub open spec fn weighs(rows: Seq<RowTextsView>, i: int) -> bool {
    rows[i] matches (Some(name), Some(percentage)) && {
        &&& !is_for_the_rest(profile::element_text(name))
        &&& profile::read_percentage(profile::element_text(percentage)) is Some
    }
}

/// The name is that of the row for all the rest.
pub open spec fn is_for_the_rest(name: Seq<char>) -> bool {
    &&& name.len() == 5
    &&& texts::alike(name[0], 'O')
    &&& texts::alike(name[1], 't')
    &&& texts::alike(name[2], 'h')
    &&& texts::alike(name[3], 'e')
    &&& texts::alike(name[4], 'r')
}

/// The weights of a table are those of its rows that weigh, all of them and in their order, each
/// with the name of its own row and the numeral of that row's own percentage. `picked` are the
/// positions of these rows.
pub proof fn each_row_that_weighs_gives_its_weight(rows: Seq<RowTextsView>) -> (picked: Seq<int>)
    ensures
        selection::picks(picked, rows.len(), |i: int| weighs(rows, i)),
        profile::row_weights(rows).len() == picked.len(),
        forall|k: int|
            0 <= k < picked.len() ==> {
                let row = rows[picked[k]];
                &&& (#[trigger] profile::row_weights(rows)[k]).0 == profile::element_text(row.0->0)
                &&& is_numeral_of(
                    profile::row_weights(rows)[k].1,
                    profile::element_text(row.1->0),
                )
            },
{
    let keep = |row: RowTextsView| profile::row_counts(row);
    let make = |row: RowTextsView| profile::row_weight(row);
    let picked = selection::lemma_filtered(rows, keep, make);
    assert(profile::row_weights(rows) == picked.map_values(|i: int| make(rows[i])));
    let counts = |i: int| keep(rows[i]);
    let shown = |i: int| weighs(rows, i);
    assert forall|i: int| #[trigger] counts(i) == shown(i) by {
        if let (Some(name), Some(_)) = rows[i] {
            lemma_for_the_rest(profile::element_text(name));
        }
    }
    assert forall|i: int| 0 <= i < rows.len() && #[trigger] shown(i) implies picked.contains(i) by {
        assert(counts(i));
    }
    assert forall|k: int| 0 <= k < picked.len() implies shown(#[trigger] picked[k]) by {
        assert(counts(picked[k]));
    }
    assert forall|k: int| 0 <= k < picked.len() implies ({
        let row = rows[picked[k]];
        &&& (#[trigger] profile::row_weights(rows)[k]).0 == profile::element_text(row.0->0)
        &&& is_numeral_of(profile::row_weights(rows)[k].1, profile::element_text(row.1->0))
    }) by {
        numerals_are_the_text_of_percentages(profile::element_text(rows[picked[k]].1->0));
    }
    picked
}

/// The row for all the rest is the one named "Other", in any case.
proof fn lemma_for_the_rest(name: Seq<char>)
    ensures
        text::same_ignoring_ascii_case(name, "Other"@) <==> is_for_the_rest(name),
{
    reveal_strlit("Other");
    let other = "Other"@;
    texts::case_is_all_that_may_differ(name, other);
    if text::same_ignoring_ascii_case(name, other) {
        assert(texts::alike(name[0], other[0]));
        assert(texts::alike(name[1], other[1]));
        assert(texts::alike(name[2], other[2]));
        assert(texts::alike(name[3], other[3]));
        assert(texts::alike(name[4], other[4]));
    }
}

/// The weights of two tables, one after the other, are those of the first and then those of the
/// second.
pub proof fn tables_are_weighed_row_by_row(first: Seq<RowTextsView>, second: Seq<RowTextsView>)
    ensures
        profile::row_weights(first + second) == profile::row_weights(first)
            + profile::row_weights(second),
    decreases second.len(),
{
    reveal(Seq::filter);
    let keep = |row: RowTextsView| profile::row_counts(row);
    if second.len() == 0 {
        assert(first + second =~= first);
        assert(second.filter(keep) =~= Seq::empty());
        assert(profile::row_weights(first + second) =~= profile::row_weights(first)
            + profile::row_weights(second));
    } else {
        let shorter = second.drop_last();
        tables_are_weighed_row_by_row(first, shorter);
        assert((first + second).drop_last() =~= first + shorter);
        assert(profile::row_weights(first + second) =~= profile::row_weights(first)
            + profile::row_weights(second));
    }
}

/// The weights in a text are those in its first section, as its rows are selected there, and then
/// those in what follows. What stands outside the sections does not count.
pub proof fn sections_are_weighed_one_after_the_other(
    before: Seq<char>,
    content: Seq<char>,
    rest: Seq<char>,
)
    requires
        forall|at: int| !texts::reads_at(before, "<![CDATA["@, at),
        forall|at: int| !texts::reads_at(content, "]]>"@, at),
    ensures
        ({
            let xml = before + "<![CDATA["@ + content + "]]>"@ + rest;
            let rows = html::fragment_rows(
                content,
                "tr[data-testid='etf-holdings_countries_row'], tr[data-testid='etf-holdings_sectors_row']"@,
                "*[data-testid='tl_etf-holdings_countries_value_name'], *[data-testid='tl_etf-holdings_sectors_value_name']"@,
                "*[data-testid='tl_etf-holdings_countries_value_percentage'], *[data-testid='tl_etf-holdings_sectors_value_percentage']"@,
            );
            let following = profile::sections_weights(profile::cdata_sections(rest));
            &&& profile::cdata_sections(xml) == seq![content] + profile::cdata_sections(rest)
            &&& rows matches Some(rows) ==> profile::sections_weights(profile::cdata_sections(xml))
                == profile::row_weights(rows) + following
            &&& rows is None ==> profile::sections_weights(profile::cdata_sections(xml))
                == following
        }),
{
    texts::held_patterns_can_be_read(before, "<![CDATA["@);
    texts::held_patterns_can_be_read(content, "]]>"@);
    profile::cdata_section_reads_back(before, content, rest);
    let sections = profile::cdata_sections(rest);
    let weigh = |section: Seq<char>| profile::section_weights(section);
    let all = seq![content] + sections;
    assert(all.map_values(weigh) =~= seq![weigh(content)] + sections.map_values(weigh));
    let following = sections.map_values(weigh);
    let weights = all.map_values(weigh);
    assert(weights.first() == weigh(content));
    assert(weights.drop_first() =~= following);
    assert(weights.flatten() == weights.first() + weights.drop_first().flatten());
    if profile::section_weights(content).len() == 0 {
        assert(profile::section_weights(content) + following.flatten() =~= following.flatten());
    }
}

/// A text without a section, or with one that is not closed, has no sections and no weights.
pub proof fn unclosed_sections_do_not_count(before: Seq<char>, rest: Seq<char>)
    requires
        forall|at: int| !texts::reads_at(before, "<![CDATA["@, at),
        forall|at: int| !texts::reads_at(rest, "]]>"@, at),
    ensures
        profile::cdata_sections(before).len() == 0,
        profile::cdata_sections(before + "<![CDATA["@ + rest).len() == 0,
        profile::sections_weights(profile::cdata_sections(before)).len() == 0,
        profile::sections_weights(profile::cdata_sections(before + "<![CDATA["@ + rest)).len() == 0,
{
    let mark = "<![CDATA["@;
    let whole = before + mark + rest;
    texts::held_patterns_can_be_read(before, mark);
    texts::held_patterns_can_be_read(rest, "]]>"@);
    reveal_strlit("<![CDATA[");
    assert forall|k: int| 0 < k < mark.len() implies #[trigger] mark.skip(k) != mark.take(
        mark.len() - k,
    ) by {
        assert(mark.skip(k)[0] == mark[k]);
        assert(mark.take(mark.len() - k)[0] == mark[0]);
        assert(mark[0] == '<' && mark[k] != '<');
    }
    text::lemma_first_occurrence_after(before, mark, rest);
    assert(whole.skip(before.len() as int + mark.len()) =~= rest);
    text::lemma_first_occurrence(before, mark);
    let weigh = |section: Seq<char>| profile::section_weights(section);
    let none = Seq::<Seq<char>>::empty();
    assert(profile::cdata_sections(before) =~= none);
    assert(profile::cdata_sections(whole) =~= none);
    assert(none.map_values(weigh) =~= Seq::empty());
    assert(none.map_values(weigh).flatten() =~= Seq::empty());
}

} // verus!
