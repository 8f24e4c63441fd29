//! The page counters that justETF puts into its links.
//!
//! A page numbers its links: the digits before a known marker are the page's counter, which the
//! requests that follow have to repeat.

use vstd::prelude::*;
use vstd::string::*;

use crate::decimal;
use crate::provider::JustEtfProvider;
use crate::text;

verus! {

/// What follows the counter on the search page.
pub const SEARCH_MARKER: &'static str =
    "-1.0-container-tabsContentContainer-tabsContentRepeater-1-container-content-etfsTablePanel&search=ETFS&_wicket=1";

/// What follows the counter on a profile page.
pub const PROFILE_MARKER: &'static str = "-1.0-holdingsSection-sectors-loadMoreSectors";

/// Where the digits before the first `marker` of `page` begin and end; `None` where there is no
/// marker, or nothing but digits before it.
pub open spec fn counter_span(page: Seq<char>, marker: Seq<char>) -> Option<(int, int)> {
    match text::first_occurrence(page, marker) {
        Some(end) if decimal::digit_run_start(page, end) > 0 => Some(
            (decimal::digit_run_start(page, end), end),
        ),
        _ => None,
    }
}

/// The digits before the first `marker` of `page`.
pub open spec fn counter_digits(page: Seq<char>, marker: Seq<char>) -> Option<Seq<char>> {
    match counter_span(page, marker) {
        Some((start, end)) => Some(page.subrange(start, end)),
        None => None,
    }
}

/// The character before the counter of `page`, if there is one, is an ASCII character. Other
/// characters take more than one byte, and a counter is taken to begin one byte after the last
/// character that is no digit.
pub open spec fn counter_is_readable(page: Seq<char>, marker: Seq<char>) -> bool {
    match counter_span(page, marker) {
        Some((start, _)) => page[start - 1] <= '\u{7f}',
        None => true,
    }
}

/// Where the digits before the first `marker` of `page` begin and end.
fn find_counter(page: &Vec<char>, marker: &str) -> (span: Option<(usize, usize)>)
    ensures
        match span {
            Some((start, end)) => counter_span(page@, marker@) == Some((start as int, end as int))
                && 0 < start <= end <= page@.len(),
            None => counter_span(page@, marker@) is None,
        },
{
    let marker_chars = text::chars_of(marker);
    assert(page@.skip(0) =~= page@);
    match text::find_from(page, &marker_chars, 0) {
        Some(end) => {
            let start: usize = decimal::run_start(page, end);
            if start > 0 {
                Some((start, end))
            } else {
                None
            }
        },
        None => None,
    }
}

/// The character before the counter of `page`, if there is one, is an ASCII character.
fn has_readable_counter(page: &str, marker: &str) -> (readable: bool)
    ensures
        readable == counter_is_readable(page@, marker@),
{
    let chars = text::chars_of(page);
    match find_counter(&chars, marker) {
        Some((start, _)) => chars[start - 1] <= '\u{7f}',
        None => true,
    }
}

/// The number before the search page's marker, as a numeral; zero where there is none, or one
/// that does not fit 64 bits.
pub open spec fn wicket_counter(page: Seq<char>) -> Seq<char> {
    match counter_digits(page, SEARCH_MARKER@) {
        Some(digits) => match decimal::parsed_digits(digits) {
            Some(number) => decimal::numeral(number as nat),
            None => "0"@,
        },
        None => "0"@,
    }
}

/// The digits before a profile page's marker, as they stand; zero where there is no marker, or
/// nothing but digits before it.
pub open spec fn profile_page_counter(page: Seq<char>) -> Seq<char> {
    match counter_digits(page, PROFILE_MARKER@) {
        Some(digits) => digits,
        None => "0"@,
    }
}

impl JustEtfProvider {
    /// The counter of the search page `html` can be read.
    pub fn wicket_counter_is_readable(&self, html: &str) -> (readable: bool)
        ensures
            readable == counter_is_readable(html@, SEARCH_MARKER@),
    {
        has_readable_counter(html, SEARCH_MARKER)
    }

    /// The counter of the search page `html`.
    pub fn extract_wicket_counter(&self, html: &str) -> (counter: String)
        requires
            counter_is_readable(html@, SEARCH_MARKER@),
        ensures
            counter@ == wicket_counter(html@),
    {
        let chars = text::chars_of(html);
        match find_counter(&chars, SEARCH_MARKER) {
            Some((start, end)) => {
                proof {
                    decimal::lemma_digit_run(html@, end as int);
                }
                match decimal::parse_digits(&chars, start, end) {
                    Some(number) => decimal::to_numeral(number),
                    None => "0".to_owned(),
                }
            },
            None => "0".to_owned(),
        }
    }

    /// The counter of the profile page `html` can be read.
    pub fn profile_page_counter_is_readable(&self, html: &str) -> (readable: bool)
        ensures
            readable == counter_is_readable(html@, PROFILE_MARKER@),
    {
        has_readable_counter(html, PROFILE_MARKER)
    }

    /// The counter of the profile page `html`.
    pub fn extract_profile_page_counter<'a>(&self, html: &'a str) -> (counter: &'a str)
        requires
            counter_is_readable(html@, PROFILE_MARKER@),
        ensures
            counter@ == profile_page_counter(html@),
    {
        let chars = text::chars_of(html);
        match find_counter(&chars, PROFILE_MARKER) {
            Some((start, end)) => html.substring_char(start, end),
            None => "0",
        }
    }
}

/// The counter of a search page is always the numeral of a 64-bit number, and so never empty.
pub proof fn wicket_counter_is_a_numeral(page: Seq<char>)
    ensures
        exists|number: u64| wicket_counter(page) == #[trigger] decimal::numeral(number as nat),
        wicket_counter(page).len() > 0,
        decimal::all_digits(wicket_counter(page)),
{
    reveal_strlit("0");
    assert("0"@ =~= decimal::numeral(0u64 as nat));
    let digits = counter_digits(page, SEARCH_MARKER@);
    let number = match digits {
        Some(digits) => match decimal::parsed_digits(digits) {
            Some(number) => number,
            None => 0u64,
        },
        None => 0u64,
    };
    assert(wicket_counter(page) == decimal::numeral(number as nat));
    decimal::lemma_numeral_value(number as nat);
}

/// The counter of a profile page holds digits only.
pub proof fn profile_page_counter_holds_digits(page: Seq<char>)
    ensures
        decimal::all_digits(profile_page_counter(page)),
{
    reveal_strlit("0");
    text::lemma_first_occurrence(page, PROFILE_MARKER@);
    if let Some(end) = text::first_occurrence(page, PROFILE_MARKER@) {
        decimal::lemma_digit_run(page, end);
    }
}

/// Digits before the marker that begin with no zero and fit 64 bits are the counter as they stand.
pub proof fn plain_digits_are_the_counter(page: Seq<char>, digits: Seq<char>)
    requires
        counter_digits(page, SEARCH_MARKER@) == Some(digits),
        digits.len() > 0,
        digits.first() != '0',
        decimal::digits_value(digits) <= u64::MAX,
    ensures
        wicket_counter(page) == digits,
{
    text::lemma_first_occurrence(page, SEARCH_MARKER@);
    decimal::lemma_digit_run(page, text::first_occurrence(page, SEARCH_MARKER@)->0);
    decimal::lemma_value_numeral(digits);
}

/// A page in which the marker follows a character that is no digit and the numeral of a 64-bit
/// number, and stands nowhere before, has that number as its counter.
pub proof fn wicket_counter_reads_back(before: Seq<char>, number: u64, after: Seq<char>)
    requires
        before.len() > 0,
        !decimal::is_digit(before.last()),
        text::is_first_occurrence(
            before + decimal::numeral(number as nat) + SEARCH_MARKER@ + after,
            SEARCH_MARKER@,
            (before + decimal::numeral(number as nat)).len() as int,
        ),
    ensures
        wicket_counter(before + decimal::numeral(number as nat) + SEARCH_MARKER@ + after)
            == decimal::numeral(number as nat),
{
    let digits = decimal::numeral(number as nat);
    let page = before + digits + SEARCH_MARKER@ + after;
    let end = (before + digits).len() as int;
    text::lemma_first_occurrence_at(page, SEARCH_MARKER@, end);
    decimal::lemma_numeral_value(number as nat);
    assert forall|i: int| before.len() <= i < end implies decimal::is_digit(#[trigger] page[i]) by {
        assert(page[i] == digits[i - before.len()]);
    }
    assert(page[before.len() - 1] == before.last());
    decimal::lemma_run_start_at(page, before.len() as int, end);
    assert(page.subrange(before.len() as int, end) =~= digits);
}

} // verus!
