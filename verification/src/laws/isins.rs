//! What ISINs look like, by the numbers of their characters.

use vstd::prelude::*;

use crate::isin;

verus! {

/// A text looks like an ISIN if it has twelve characters, of which the first two are capital
/// letters and the others capital letters, small letters or digits.
pub proof fn isins_are_two_capitals_and_ten_letters_or_digits(s: Seq<char>)
    ensures
        isin::is_isin_shaped(s) <==> {
            &&& s.len() == 12
            &&& forall|i: int|
                0 <= i < 12 ==> {
                    let n = (#[trigger] s[i]) as int;
                    65 <= n <= 90 || (i >= 2 && (97 <= n <= 122 || 48 <= n <= 57))
                }
        },
{
    if isin::is_isin_shaped(s) {
        assert forall|i: int| 0 <= i < 12 implies ({
            let n = (#[trigger] s[i]) as int;
            65 <= n <= 90 || (i >= 2 && (97 <= n <= 122 || 48 <= n <= 57))
        }) by {
            if i < 2 {
                assert(isin::is_capital(s[i]));
            } else {
                assert(isin::is_alphanumeric(s[i]));
            }
        }
    }
}

/// Exchanging one of the ten last characters for another letter or digit leaves an ISIN one.
pub proof fn other_letters_make_other_isins(s: Seq<char>, i: int, c: char)
    requires
        isin::is_isin_shaped(s),
        2 <= i < 12,
        isin::is_alphanumeric(c),
    ensures
        isin::is_isin_shaped(s.update(i, c)),
{
}

} // verus!
