//! Runs of decimal digits, their values, and the numerals of numbers.

use vstd::prelude::*;
use vstd::string::*;

verus! {

/// `c` is one of the digits `0` to `9`.
pub open spec fn is_digit(c: char) -> bool {
    '0' <= c <= '9'
}

/// Every character of `text` is a digit.
pub open spec fn all_digits(text: Seq<char>) -> bool {
    forall|i: int| 0 <= i < text.len() ==> is_digit(#[trigger] text[i])
}

/// The value of a digit.
pub open spec fn digit_value(c: char) -> nat {
    (c as nat - '0' as nat) as nat
}

/// The digit with the value `n`, for `n` below ten.
pub open spec fn digit_char(n: nat) -> char {
    ('0' as nat + n) as char
}

/// The value of a run of digits read in base ten; that of the empty run is zero.
pub open spec fn digits_value(digits: Seq<char>) -> nat
    decreases digits.len(),
{
    if digits.len() == 0 {
        0
    } else {
        digits_value(digits.drop_last()) * 10 + digit_value(digits.last())
    }
}

/// The numeral of `n` in base ten, without leading zeros.
pub open spec fn numeral(n: nat) -> Seq<char>
    decreases n,
{
    if n < 10 {
        seq![digit_char(n)]
    } else {
        numeral(n / 10).push(digit_char(n % 10))
    }
}

/// Where the run of digits that ends before position `end` of `text` begins.
pub open spec fn digit_run_start(text: Seq<char>, end: int) -> int
    decreases end,
{
    if 0 < end <= text.len() && is_digit(text[end - 1]) {
        digit_run_start(text, end - 1)
    } else {
        end
    }
}

/// The run that [`digit_run_start`] delimits holds digits only and cannot be extended to the
/// left.
pub proof fn lemma_digit_run(text: Seq<char>, end: int)
    requires
        0 <= end <= text.len(),
    ensures
        0 <= digit_run_start(text, end) <= end,
        all_digits(text.subrange(digit_run_start(text, end), end)),
        digit_run_start(text, end) > 0 ==> !is_digit(text[digit_run_start(text, end) - 1]),
    decreases end,
{
    if 0 < end && is_digit(text[end - 1]) {
        lemma_digit_run(text, end - 1);
        let start = digit_run_start(text, end);
        let run = text.subrange(start, end);
        assert forall|i: int| 0 <= i < run.len() implies is_digit(#[trigger] run[i]) by {
            if i < run.len() - 1 {
                assert(run[i] == text.subrange(start, end - 1)[i]);
            }
        }
    }
}

/// A run of digits after a character that is no digit begins right there.
pub proof fn lemma_run_start_at(text: Seq<char>, start: int, end: int)
    requires
        0 < start <= end <= text.len(),
        !is_digit(text[start - 1]),
        forall|i: int| start <= i < end ==> is_digit(#[trigger] text[i]),
    ensures
        digit_run_start(text, end) == start,
    decreases end,
{
    if start < end {
        assert(is_digit(text[end - 1]));
        lemma_run_start_at(text, start, end - 1);
    }
}

/// A numeral is a non-empty run of digits, and its value is the number it was made from.
pub proof fn lemma_numeral_value(n: nat)
    ensures
        numeral(n).len() > 0,
        all_digits(numeral(n)),
        digits_value(numeral(n)) == n,
    decreases n,
{
    let text = numeral(n);
    if n < 10 {
        assert(text.drop_last() =~= Seq::empty());
        assert(digits_value(text.drop_last()) == 0);
    } else {
        lemma_numeral_value(n / 10);
        assert(text.drop_last() =~= numeral(n / 10));
    }
}

/// A run of digits with no leading zero is the numeral of its value.
pub proof fn lemma_value_numeral(digits: Seq<char>)
    requires
        all_digits(digits),
        digits.len() > 0,
        digits.first() == '0' ==> digits.len() == 1,
    ensures
        numeral(digits_value(digits)) == digits,
        digits.first() != '0' ==> digits_value(digits) > 0,
    decreases digits.len(),
{
    let front = digits.drop_last();
    let last = digits.last();
    assert(is_digit(digits[digits.len() - 1]));
    assert(digit_char(digit_value(last)) == last);
    if digits.len() == 1 {
        assert(digits_value(front) == 0);
        assert(digits =~= seq![last]);
    } else {
        assert(front.first() == digits.first());
        assert forall|i: int| 0 <= i < front.len() implies is_digit(#[trigger] front[i]) by {
            assert(front[i] == digits[i]);
        }
        lemma_value_numeral(front);
        let n = digits_value(digits);
        assert(n / 10 == digits_value(front));
        assert(n % 10 == digit_value(last));
        assert(digits =~= front.push(last));
    }
}

/// `c` is one of the digits `0` to `9`.
pub fn is_ascii_digit(c: char) -> (answer: bool)
    ensures
        answer == is_digit(c),
{
    '0' <= c && c <= '9'
}

/// Where the run of digits that ends before position `end` of `text` begins.
pub fn run_start(text: &Vec<char>, end: usize) -> (start: usize)
    requires
        end <= text@.len(),
    ensures
        start == digit_run_start(text@, end as int),
        start <= end,
{
    let mut start: usize = end;
    while start > 0 && is_ascii_digit(text[start - 1])
        invariant
            start <= end <= text@.len(),
            digit_run_start(text@, end as int) == digit_run_start(text@, start as int),
        decreases start,
    {
        start -= 1;
    }
    start
}

/// The number that a run of digits stands for, where the run is not empty and the number fits
/// 64 bits.
pub open spec fn parsed_digits(digits: Seq<char>) -> Option<u64> {
    if digits.len() > 0 && digits_value(digits) <= u64::MAX {
        Some(digits_value(digits) as u64)
    } else {
        None
    }
}

/// A prefix of a run of digits has no greater value than the run.
proof fn lemma_prefix_value(digits: Seq<char>, length: int)
    requires
        0 <= length <= digits.len(),
    ensures
        digits_value(digits.take(length)) <= digits_value(digits),
    decreases digits.len(),
{
    if length < digits.len() {
        lemma_prefix_value(digits.drop_last(), length);
        assert(digits.drop_last().take(length) =~= digits.take(length));
    } else {
        assert(digits.take(length) =~= digits);
    }
}

/// The number that the digits of `text` from `start` up to `end` stand for, if there is one.
pub fn parse_digits(text: &Vec<char>, start: usize, end: usize) -> (value: Option<u64>)
    requires
        start <= end <= text@.len(),
        all_digits(text@.subrange(start as int, end as int)),
    ensures
        value == parsed_digits(text@.subrange(start as int, end as int)),
{
    let ghost digits = text@.subrange(start as int, end as int);
    if start == end {
        return None;
    }
    let mut value: u64 = 0;
    let mut i: usize = start;
    while i < end
        invariant
            start <= i <= end <= text@.len(),
            digits == text@.subrange(start as int, end as int),
            all_digits(digits),
            value == digits_value(digits.take(i - start)),
        decreases end - i,
    {
        let ghost longer = digits.take(i - start + 1);
        proof {
            assert(longer.drop_last() =~= digits.take(i - start));
            assert(longer.last() == text@[i as int]);
            assert(is_digit(digits[i - start]));
            lemma_prefix_value(digits, i - start + 1);
        }
        let digit: u64 = text[i] as u64 - '0' as u64;
        if value > (u64::MAX - digit) / 10 {
            return None;
        }
        value = value * 10 + digit;
        i += 1;
    }
    assert(digits.take(i - start) =~= digits);
    Some(value)
}

/// The digit with the value `n`, as a text.
fn digit_text(n: u64) -> (text: &'static str)
    requires
        n < 10,
    ensures
        text@ == seq![digit_char(n as nat)],
{
    proof {
        reveal_strlit("0");
        reveal_strlit("1");
        reveal_strlit("2");
        reveal_strlit("3");
        reveal_strlit("4");
        reveal_strlit("5");
        reveal_strlit("6");
        reveal_strlit("7");
        reveal_strlit("8");
        reveal_strlit("9");
    }
    let text: &'static str = match n {
        0 => "0",
        1 => "1",
        2 => "2",
        3 => "3",
        4 => "4",
        5 => "5",
        6 => "6",
        7 => "7",
        8 => "8",
        _ => "9",
    };
    assert(text@ =~= seq![digit_char(n as nat)]);
    text
}

/// The numeral of `n` in base ten.
pub fn to_numeral(n: u64) -> (text: String)
    ensures
        text@ == numeral(n as nat),
    decreases n,
{
    let mut text = if n < 10 {
        String::new()
    } else {
        to_numeral(n / 10)
    };
    text.append(digit_text(n % 10));
    assert(text@ =~= numeral(n as nat));
    text
}

} // verus!
