//! The shape of ISINs.

use vstd::prelude::*;
use vstd::string::*;

use crate::decimal;
use crate::text;

verus! {

/// The number of characters of an ISIN.
pub const ISIN_LENGTH: usize = 12;

/// `c` is one of the letters `A` to `Z`.
pub open spec fn is_capital(c: char) -> bool {
    'A' <= c <= 'Z'
}

/// `c` is an ASCII letter or digit.
pub open spec fn is_alphanumeric(c: char) -> bool {
    is_capital(c) || 'a' <= c <= 'z' || decimal::is_digit(c)
}

/// Two capital letters and ten letters or digits.
pub open spec fn is_isin_shaped(s: Seq<char>) -> bool {
    &&& s.len() == ISIN_LENGTH
    &&& forall|i: int| 0 <= i < 2 ==> is_capital(#[trigger] s[i])
    &&& forall|i: int| 2 <= i < ISIN_LENGTH ==> is_alphanumeric(#[trigger] s[i])
}

/// Check if a string looks like an ISIN (2 uppercase letters + 10 alphanumeric).
pub fn looks_like_isin(s: &str) -> (answer: bool)
    ensures
        answer == is_isin_shaped(s@),
{
    let chars = text::chars_of(s);
    if chars.len() != ISIN_LENGTH {
        return false;
    }
    let mut i: usize = 0;
    while i < ISIN_LENGTH
        invariant
            i <= ISIN_LENGTH,
            chars@ == s@,
            s@.len() == ISIN_LENGTH,
            forall|j: int| 0 <= j < i && j < 2 ==> is_capital(#[trigger] s@[j]),
            forall|j: int| 2 <= j < i ==> is_alphanumeric(#[trigger] s@[j]),
        decreases ISIN_LENGTH - i,
    {
        let c = chars[i];
        let capital = 'A' <= c && c <= 'Z';
        if i < 2 {
            if !capital {
                return false;
            }
        } else if !capital && !('a' <= c && c <= 'z') && !decimal::is_ascii_digit(c) {
            return false;
        }
        i += 1;
    }
    true
}

/// What looks like an ISIN is plain ASCII, so that it can be put into a URL as it is.
pub proof fn isins_are_ascii(s: Seq<char>)
    requires
        is_isin_shaped(s),
    ensures
        text::all_ascii(s),
{
    assert forall|i: int| 0 <= i < s.len() implies #[trigger] s[i] <= '\u{7f}' by {
        if i < 2 {
            assert(is_capital(s[i]));
        } else {
            assert(is_alphanumeric(s[i]));
        }
    }
}

} // verus!
