//! What the counter of a page is in terms of how the page is put together.

use vstd::prelude::*;
use vstd::string::*;

use crate::counter;
use crate::decimal;
use crate::laws::numerals;
use crate::laws::texts;
use crate::text;

verus! {

/// What follows the counter in a link of the search page.
pub open spec fn search_link() -> Seq<char> {
    "-1.0-container-tabsContentContainer-tabsContentRepeater-1-container-content-etfsTablePanel&search=ETFS&_wicket=1"@
}

/// What follows the counter in a link of a profile page.
pub open spec fn profile_link() -> Seq<char> {
    "-1.0-holdingsSection-sectors-loadMoreSectors"@
}

/// `page` is `before`, `digits`, `link` and `after` put together, where `digits` are digits only
/// and the link stands nowhere earlier.
pub open spec fn is_linked(
    page: Seq<char>,
    before: Seq<char>,
    digits: Seq<char>,
    link: Seq<char>,
    after: Seq<char>,
) -> bool {
    &&& page == before + digits + link + after
    &&& forall|i: int| 0 <= i < digits.len() ==> 48 <= (#[trigger] digits[i]) as int <= 57
    &&& forall|at: int|
        0 <= at < before.len() + digits.len() ==> !#[trigger] texts::reads_at(page, link, at)
}

/// The digits between a character that is no digit and the first link are the page's counter; they
/// can be read if that character is an ASCII one.
proof fn lemma_counter(
    page: Seq<char>,
    before: Seq<char>,
    digits: Seq<char>,
    link: Seq<char>,
    after: Seq<char>,
)
    requires
        is_linked(page, before, digits, link, after),
        before.len() > 0 ==> !(48 <= before[before.len() - 1] as int <= 57),
    ensures
        counter::counter_digits(page, link) == if before.len() > 0 {
            Some(digits)
        } else {
            None
        },
        counter::counter_is_readable(page, link) <==> before.len() == 0 || before[before.len() - 1]
            as int <= 127,
{
    let start = before.len() as int;
    let end = start + digits.len();
    assert(texts::reads_at(page, link, end)) by {
        assert forall|i: int| 0 <= i < link.len() implies #[trigger] page[end + i] == link[i] by {}
    }
    assert forall|at: int| text::occurs_at(page, link, at) == texts::reads_at(page, link, at) by {
        texts::occurrences_are_read(page, link, at);
    }
    assert(text::is_first_occurrence(page, link, end));
    text::lemma_first_occurrence_at(page, link, end);
    numerals::runs_reach_back_to_what_is_no_digit(page, end);
    let run = decimal::digit_run_start(page, end);
    if start > 0 {
        assert(page[start - 1] == before[start - 1]);
    }
    if run < start {
        assert(48 <= page[start - 1] as int <= 57);
    } else if run > start {
        assert(page[run - 1] == digits[run - 1 - start]);
    }
    assert(page.subrange(start, end) =~= digits);
}

/// The counter of a profile page is what stands in digits right before its first link, as it
/// stands there; where the page begins with these digits, it is zero.
pub proof fn profile_counters_stand_before_the_link(
    page: Seq<char>,
    before: Seq<char>,
    digits: Seq<char>,
    after: Seq<char>,
)
    requires
        is_linked(page, before, digits, profile_link(), after),
        before.len() > 0 ==> !(48 <= before[before.len() - 1] as int <= 57),
    ensures
        before.len() > 0 ==> counter::profile_page_counter(page) == digits,
        before.len() == 0 ==> counter::profile_page_counter(page) == seq!['0'],
        counter::counter_is_readable(page, counter::PROFILE_MARKER@) <==> before.len() == 0
            || before[before.len() - 1] as int <= 127,
{
    reveal_strlit("0");
    assert("0"@ =~= seq!['0']);
    lemma_counter(page, before, digits, profile_link(), after);
}

/// The counter of the search page is the number that stands in digits right before its first link,
/// without zeros before it; zero where there are no digits, where the number does not fit 64 bits,
/// and where the page begins with the digits.
pub proof fn search_counters_are_numbers_before_the_link(
    page: Seq<char>,
    before: Seq<char>,
    digits: Seq<char>,
    after: Seq<char>,
)
    requires
        is_linked(page, before, digits, search_link(), after),
        before.len() > 0 ==> !(48 <= before[before.len() - 1] as int <= 57),
    ensures
        ({
            let value = decimal::digits_value(digits);
            let number = if before.len() > 0 && value <= 0xffff_ffff_ffff_ffff {
                value
            } else {
                0
            };
            let made = counter::wicket_counter(page);
            &&& made.len() > 0
            &&& decimal::all_digits(made)
            &&& decimal::digits_value(made) == number
            &&& made[0] == '0' ==> made.len() == 1
        }),
        counter::counter_is_readable(page, counter::SEARCH_MARKER@) <==> before.len() == 0
            || before[before.len() - 1] as int <= 127,
{
    reveal_strlit("0");
    assert("0"@ =~= decimal::numeral(0));
    lemma_counter(page, before, digits, search_link(), after);
    let value = decimal::digits_value(digits);
    decimal::lemma_numeral_value(0);
    numerals::numerals_have_no_leading_zeros(0);
    if digits.len() == 0 {
        assert(value == 0);
    }
    if value <= 0xffff_ffff_ffff_ffff {
        decimal::lemma_numeral_value(value);
        numerals::numerals_have_no_leading_zeros(value);
    }
}

/// A page without the link has the counter zero, and it can be read.
pub proof fn pages_without_a_link_count_from_zero(page: Seq<char>)
    ensures
        (forall|at: int| !#[trigger] texts::reads_at(page, search_link(), at)) ==> {
            &&& counter::wicket_counter(page) == seq!['0']
            &&& counter::counter_is_readable(page, counter::SEARCH_MARKER@)
        },
        (forall|at: int| !#[trigger] texts::reads_at(page, profile_link(), at)) ==> {
            &&& counter::profile_page_counter(page) == seq!['0']
            &&& counter::counter_is_readable(page, counter::PROFILE_MARKER@)
        },
{
    reveal_strlit("0");
    assert("0"@ =~= seq!['0']);
    texts::held_patterns_can_be_read(page, search_link());
    texts::held_patterns_can_be_read(page, profile_link());
}

} // verus!
