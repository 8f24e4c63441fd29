//! The grammar of floating-point numerals.
//!
//! It is the grammar that the standard library documents for parsing floating-point numbers:
//! an optional sign, then `inf`, `infinity` or `nan` in any case, or decimal digits with an
//! optional point and an optional exponent.

use vstd::prelude::*;
use vstd::string::*;

use crate::decimal;
use crate::text;

verus! {

/// `text` without the sign that it may begin with.
pub open spec fn unsigned(text: Seq<char>) -> Seq<char> {
    if text.len() > 0 && (text.first() == '+' || text.first() == '-') {
        text.drop_first()
    } else {
        text
    }
}

/// Digits, or digits with one point before, between or after them.
pub open spec fn is_mantissa(text: Seq<char>) -> bool {
    ||| text.len() > 0 && decimal::all_digits(text)
    ||| text.len() > 1 && exists|point: int|
        {
            &&& 0 <= point < text.len()
            &&& #[trigger] text[point] == '.'
            &&& decimal::all_digits(text.take(point))
            &&& decimal::all_digits(text.skip(point + 1))
        }
}

/// The letter `e` in either case, an optional sign, and digits.
pub open spec fn is_exponent(text: Seq<char>) -> bool {
    &&& text.len() > 0
    &&& text.first() == 'e' || text.first() == 'E'
    &&& unsigned(text.drop_first()).len() > 0
    &&& decimal::all_digits(unsigned(text.drop_first()))
}

/// A mantissa, alone or followed by an exponent.
pub open spec fn is_number(text: Seq<char>) -> bool {
    ||| is_mantissa(text)
    ||| exists|split: int|
        0 <= split <= text.len() && is_mantissa(text.take(split)) && is_exponent(
            #[trigger] text.skip(split),
        )
}

/// `text` reads as a floating-point number.
pub open spec fn is_float_text(text: Seq<char>) -> bool {
    let magnitude = unsigned(text);
    ||| is_number(magnitude)
    ||| text::same_ignoring_ascii_case(magnitude, "inf"@)
    ||| text::same_ignoring_ascii_case(magnitude, "infinity"@)
    ||| text::same_ignoring_ascii_case(magnitude, "nan"@)
}

/// Where the run of digits that begins at `from` ends.
fn run_end(chars: &Vec<char>, from: usize) -> (end: usize)
    requires
        from <= chars@.len(),
    ensures
        from <= end <= chars@.len(),
        forall|i: int| from <= i < end ==> decimal::is_digit(#[trigger] chars@[i]),
        end < chars@.len() ==> !decimal::is_digit(chars@[end as int]),
{
    let mut end: usize = from;
    while end < chars.len() && decimal::is_ascii_digit(chars[end])
        invariant
            from <= end <= chars@.len(),
            forall|i: int| from <= i < end ==> decimal::is_digit(#[trigger] chars@[i]),
        decreases chars@.len() - end,
    {
        end += 1;
    }
    end
}

/// The longest mantissa that `text` can begin with ends at `end`: digits up to `whole`, then, if
/// `end` is beyond `whole`, a point and digits. `filled` says that there is a digit among them.
spec fn mantissa_ends(text: Seq<char>, whole: int, end: int, filled: bool) -> bool {
    &&& 0 <= whole <= end <= text.len()
    &&& forall|i: int| 0 <= i < end && i != whole ==> decimal::is_digit(#[trigger] text[i])
    &&& end > whole ==> text[whole] == '.'
    &&& end == whole ==> (end < text.len() ==> !decimal::is_digit(text[end]) && text[end] != '.')
    &&& end > whole ==> (end < text.len() ==> !decimal::is_digit(text[end]))
    &&& filled == (whole > 0 || end > whole + 1)
}

proof fn lemma_mantissa_of(text: Seq<char>, whole: int, end: int, filled: bool)
    requires
        mantissa_ends(text, whole, end, filled),
        filled,
    ensures
        is_mantissa(text.take(end)),
{
    let front = text.take(end);
    if end == whole {
        assert forall|i: int| 0 <= i < front.len() implies decimal::is_digit(
            #[trigger] front[i],
        ) by {
            assert(front[i] == text[i]);
        }
    } else {
        assert(front[whole] == '.');
        let before = front.take(whole);
        assert forall|i: int| 0 <= i < before.len() implies decimal::is_digit(
            #[trigger] before[i],
        ) by {
            assert(before[i] == text[i]);
        }
        let after = front.skip(whole + 1);
        assert forall|i: int| 0 <= i < after.len() implies decimal::is_digit(
            #[trigger] after[i],
        ) by {
            assert(after[i] == text[whole + 1 + i]);
        }
    }
}

proof fn lemma_mantissa_within(text: Seq<char>, whole: int, end: int, filled: bool, length: int)
    requires
        mantissa_ends(text, whole, end, filled),
        0 <= length <= text.len(),
        is_mantissa(text.take(length)),
    ensures
        length <= end,
        length == end ==> filled,
{
    let front = text.take(length);
    if decimal::all_digits(front) {
        if whole < length {
            assert(front[whole] == text[whole]);
        }
        if length > end {
            assert(front[end] == text[end]);
        }
    } else {
        let point = choose|point: int|
            {
                &&& 0 <= point < front.len()
                &&& #[trigger] front[point] == '.'
                &&& decimal::all_digits(front.take(point))
                &&& decimal::all_digits(front.skip(point + 1))
            };
        assert(front[point] == text[point]);
        assert forall|i: int| 0 <= i < length && i != point implies decimal::is_digit(
            #[trigger] text[i],
        ) by {
            if i < point {
                assert(front.take(point)[i] == text[i]);
            } else {
                assert(front.skip(point + 1)[i - point - 1] == text[i]);
            }
        }
        if point < whole {
            assert(decimal::is_digit(text[point]));
        }
        if whole < point {
            assert(decimal::is_digit(text[whole]));
            assert(end == whole);
        }
        assert(point == whole);
        assert(end > whole);
        if length > end {
            assert(decimal::is_digit(text[end]));
        }
    }
}

/// What a text with a known longest mantissa needs to be a number.
proof fn lemma_number_iff(text: Seq<char>, whole: int, end: int, filled: bool)
    requires
        mantissa_ends(text, whole, end, filled),
    ensures
        is_number(text) <==> filled && (end == text.len() || is_exponent(text.skip(end))),
{
    if filled && (end == text.len() || is_exponent(text.skip(end))) {
        lemma_mantissa_of(text, whole, end, filled);
        if end == text.len() {
            assert(text.take(end) =~= text);
        }
    }
    if is_mantissa(text) {
        assert(text.take(text.len() as int) =~= text);
        lemma_mantissa_within(text, whole, end, filled, text.len() as int);
    } else if is_number(text) {
        let split = choose|split: int|
            0 <= split <= text.len() && is_mantissa(text.take(split)) && is_exponent(
                #[trigger] text.skip(split),
            );
        lemma_mantissa_within(text, whole, end, filled, split);
        assert(text.skip(split).first() == text[split]);
        if split < end {
            assert(split == whole || decimal::is_digit(text[split]));
        }
    }
}

/// A mantissa, alone or followed by an exponent.
fn number(chars: &Vec<char>) -> (answer: bool)
    ensures
        answer == is_number(chars@),
{
    let whole: usize = run_end(chars, 0);
    let end: usize = if whole < chars.len() && chars[whole] == '.' {
        run_end(chars, whole + 1)
    } else {
        whole
    };
    let filled = whole > 0 || end - whole > 1;
    proof {
        lemma_number_iff(chars@, whole as int, end as int, filled);
    }
    if !filled || end == chars.len() {
        return filled;
    }
    let ghost tail = chars@.skip(end as int);
    assert(tail.first() == chars@[end as int]);
    if chars[end] != 'e' && chars[end] != 'E' {
        return false;
    }
    let ghost power = tail.drop_first();
    assert(power =~= chars@.skip(end + 1));
    let mut from: usize = end + 1;
    if from < chars.len() && (chars[from] == '+' || chars[from] == '-') {
        from += 1;
    }
    assert(unsigned(power) =~= chars@.skip(from as int));
    let stop: usize = run_end(chars, from);
    let answer = stop == chars.len() && stop > from;
    proof {
        let digits = unsigned(power);
        if answer {
            assert forall|i: int| 0 <= i < digits.len() implies decimal::is_digit(
                #[trigger] digits[i],
            ) by {
                assert(digits[i] == chars@[from + i]);
            }
        } else if stop < chars@.len() {
            assert(digits[stop - from] == chars@[stop as int]);
        }
    }
    answer
}

/// `text` reads as a floating-point number.
pub fn reads_as_float(text: &str) -> (answer: bool)
    ensures
        answer == is_float_text(text@),
{
    let chars = text::chars_of(text);
    let signed = chars.len() > 0 && (chars[0] == '+' || chars[0] == '-');
    let magnitude = if signed {
        text.substring_char(1, chars.len())
    } else {
        text
    };
    proof {
        if signed {
            assert(text@.subrange(1, text@.len() as int) =~= text@.drop_first());
        }
    }
    let magnitude_chars = text::chars_of(magnitude);
    number(&magnitude_chars) || text::eq_ignore_ascii_case(magnitude, "inf")
        || text::eq_ignore_ascii_case(magnitude, "infinity") || text::eq_ignore_ascii_case(
        magnitude,
        "nan",
    )
}

} // verus!
