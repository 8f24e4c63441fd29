//! Digits, numerals and floating-point numerals, from the parts that they are put together of.

use vstd::prelude::*;
use vstd::string::*;

use crate::decimal;
use crate::laws::texts;
use crate::number;
use crate::text;

verus! {

/// A character is a digit by its number, and so is the value of a digit.
pub proof fn digits_are_0_to_9(c: char)
    ensures
        decimal::is_digit(c) <==> 48 <= c as u32 <= 57,
        decimal::is_digit(c) ==> decimal::digit_value(c) == c as u32 - 48,
{
}

/// A text is all digits if the character at each of its positions is one.
pub proof fn digits_are_digits_throughout(text: Seq<char>)
    ensures
        decimal::all_digits(text) <==> forall|i: int|
            0 <= i < text.len() ==> 48 <= (#[trigger] text[i]) as int <= 57,
{
    if decimal::all_digits(text) {
        assert forall|i: int| 0 <= i < text.len() implies 48 <= (#[trigger] text[i]) as int
            <= 57 by {
            assert(decimal::is_digit(text[i]));
        }
    }
    if forall|i: int| 0 <= i < text.len() ==> 48 <= (#[trigger] text[i]) as int <= 57 {
        assert forall|i: int| 0 <= i < text.len() implies decimal::is_digit(#[trigger] text[i]) by {
            assert(48 <= text[i] as int <= 57);
        }
    }
}

/// The run of digits before a position reaches from the last character before it that is no digit,
/// or from the beginning of the text, up to that position.
pub proof fn runs_reach_back_to_what_is_no_digit(text: Seq<char>, end: int)
    requires
        0 <= end <= text.len(),
    ensures
        ({
            let start = decimal::digit_run_start(text, end);
            &&& 0 <= start <= end
            &&& forall|i: int| start <= i < end ==> 48 <= (#[trigger] text[i]) as int <= 57
            &&& start > 0 ==> !(48 <= text[start - 1] as int <= 57)
        }),
{
    decimal::lemma_digit_run(text, end);
    let start = decimal::digit_run_start(text, end);
    let run = text.subrange(start, end);
    assert forall|i: int| start <= i < end implies 48 <= (#[trigger] text[i]) as int <= 57 by {
        assert(run[i - start] == text[i]);
        assert(decimal::is_digit(run[i - start]));
    }
}

/// Digits are weighed by their place: what stands before `second` counts ten times as much for
/// each of its digits.
pub proof fn digits_are_weighed_by_their_place(first: Seq<char>, second: Seq<char>)
    ensures
        decimal::digits_value(first + second) == decimal::digits_value(first) * vstd::arithmetic::power::pow(
            10,
            second.len(),
        ) + decimal::digits_value(second),
    decreases second.len(),
{
    reveal(vstd::arithmetic::power::pow);
    if second.len() == 0 {
        assert(first + second =~= first);
    } else {
        let shorter = second.drop_last();
        digits_are_weighed_by_their_place(first, shorter);
        assert((first + second).drop_last() =~= first + shorter);
        let p = vstd::arithmetic::power::pow(10, shorter.len());
        let v = decimal::digits_value(first) as int;
        assert(vstd::arithmetic::power::pow(10, second.len()) == 10 * p);
        assert(v * (10 * p) == (v * p) * 10) by (nonlinear_arith);
    }
}

/// The value of one digit is its own.
pub proof fn one_digit_has_its_own_value(c: char)
    ensures
        decimal::digits_value(seq![c]) == decimal::digit_value(c),
        decimal::digits_value(Seq::empty()) == 0,
{
    assert(seq![c].drop_last() =~= Seq::empty());
    assert(decimal::digits_value(seq![c].drop_last()) == 0);
}

/// A numeral begins with a zero only if it is that of zero.
pub proof fn numerals_have_no_leading_zeros(n: nat)
    ensures
        decimal::numeral(n).len() > 0,
        decimal::numeral(n).first() == '0' ==> n == 0 && decimal::numeral(n).len() == 1,
    decreases n,
{
    if n >= 10 {
        numerals_have_no_leading_zeros(n / 10);
        assert(decimal::numeral(n).first() == decimal::numeral(n / 10).first());
    }
}

/// The numeral of a 64-bit number is read as that number, and so it is with zeros before it.
pub proof fn numerals_are_read_back(zeros: Seq<char>, number: u64)
    requires
        forall|i: int| 0 <= i < zeros.len() ==> #[trigger] zeros[i] == '0',
    ensures
        decimal::parsed_digits(zeros + decimal::numeral(number as nat)) == Some(number),
    decreases zeros.len(),
{
    let digits = decimal::numeral(number as nat);
    decimal::lemma_numeral_value(number as nat);
    digits_are_weighed_by_their_place(zeros, digits);
    lemma_zeros(zeros);
    assert(decimal::digits_value(zeros + digits) == number) by {
        assert(0 * vstd::arithmetic::power::pow(10, digits.len()) == 0) by (nonlinear_arith);
    }
}

/// Zeros are worth nothing.
proof fn lemma_zeros(zeros: Seq<char>)
    requires
        forall|i: int| 0 <= i < zeros.len() ==> #[trigger] zeros[i] == '0',
    ensures
        decimal::digits_value(zeros) == 0,
    decreases zeros.len(),
{
    if zeros.len() > 0 {
        assert(zeros[zeros.len() - 1] == '0');
        lemma_zeros(zeros.drop_last());
    }
}

/// Digits are read as their value if there are any and the value fits 64 bits, and else not at
/// all.
pub proof fn digits_are_read_if_they_fit(digits: Seq<char>)
    ensures
        decimal::parsed_digits(digits) is Some <==> digits.len() > 0 && decimal::digits_value(
            digits,
        ) <= 0xffff_ffff_ffff_ffff,
        decimal::parsed_digits(digits) matches Some(number) ==> number == decimal::digits_value(
            digits,
        ),
{
}

/// `text` is `before`, `mark` and `after` put together.
pub open spec fn is_split(
    text: Seq<char>,
    before: Seq<char>,
    mark: char,
    after: Seq<char>,
) -> bool {
    text == before.push(mark) + after
}

/// Digits with at most one point, and with at least one digit.
pub open spec fn is_plain(text: Seq<char>) -> bool {
    ||| text.len() > 0 && decimal::all_digits(text)
    ||| exists|whole: Seq<char>, fraction: Seq<char>| #[trigger]
        is_split(text, whole, '.', fraction) && decimal::all_digits(whole) && decimal::all_digits(
            fraction,
        ) && whole.len() + fraction.len() > 0
}

/// Digits and digits around a point are what a mantissa is.
pub proof fn mantissas_are_digits_around_a_point(text: Seq<char>)
    ensures
        number::is_mantissa(text) <==> is_plain(text),
{
    if number::is_mantissa(text) && !(text.len() > 0 && decimal::all_digits(text)) {
        let point = choose|point: int|
            {
                &&& 0 <= point < text.len()
                &&& #[trigger] text[point] == '.'
                &&& decimal::all_digits(text.take(point))
                &&& decimal::all_digits(text.skip(point + 1))
            };
        let whole = text.take(point);
        let fraction = text.skip(point + 1);
        assert(text =~= whole.push('.') + fraction);
        assert(is_split(text, whole, '.', fraction));
    }
    if is_plain(text) && !(text.len() > 0 && decimal::all_digits(text)) {
        let (whole, fraction) = choose|whole: Seq<char>, fraction: Seq<char>| #[trigger]
            is_split(text, whole, '.', fraction) && decimal::all_digits(whole)
                && decimal::all_digits(fraction) && whole.len() + fraction.len() > 0;
        let point = whole.len() as int;
        assert(text[point] == '.');
        assert(text.take(point) =~= whole);
        assert(text.skip(point + 1) =~= fraction);
    }
}

/// A sign, or none.
pub open spec fn is_sign(text: Seq<char>) -> bool {
    text.len() == 0 || (text.len() == 1 && (text[0] == '+' || text[0] == '-'))
}

/// A plain number is read with or without a sign, and with or without an exponent, which has a
/// sign or none too.
pub proof fn plain_numbers_are_read(
    sign: Seq<char>,
    plain: Seq<char>,
    letter: char,
    exponent_sign: Seq<char>,
    exponent: Seq<char>,
)
    requires
        is_sign(sign),
        is_plain(plain),
        letter == 'e' || letter == 'E',
        is_sign(exponent_sign),
        exponent.len() > 0,
        decimal::all_digits(exponent),
    ensures
        number::is_float_text(sign + plain),
        number::is_float_text(sign + plain + seq![letter] + exponent_sign + exponent),
{
    mantissas_are_digits_around_a_point(plain);
    lemma_plain_begins(plain);
    lemma_unsigned(sign, plain);
    let power = seq![letter] + exponent_sign + exponent;
    let scientific = plain + power;
    lemma_unsigned(sign, scientific);
    assert(sign + plain + seq![letter] + exponent_sign + exponent =~= sign + scientific);
    assert(scientific.take(plain.len() as int) =~= plain);
    assert(scientific.skip(plain.len() as int) =~= power);
    assert(power.drop_first() =~= exponent_sign + exponent);
    assert(decimal::is_digit(exponent[0]));
    lemma_unsigned(exponent_sign, exponent);
    assert(number::is_exponent(scientific.skip(plain.len() as int)));
}

/// A plain number does not begin with a sign.
proof fn lemma_plain_begins(plain: Seq<char>)
    requires
        is_plain(plain),
    ensures
        plain.len() > 0,
        plain.first() != '+' && plain.first() != '-',
{
    if decimal::all_digits(plain) && plain.len() > 0 {
        assert(decimal::is_digit(plain[0]));
    } else {
        let (whole, fraction) = choose|whole: Seq<char>, fraction: Seq<char>| #[trigger]
            is_split(plain, whole, '.', fraction) && decimal::all_digits(whole)
                && decimal::all_digits(fraction) && whole.len() + fraction.len() > 0;
        if whole.len() > 0 {
            assert(plain[0] == whole[0]);
            assert(decimal::is_digit(whole[0]));
        } else {
            assert(plain[0] == '.');
        }
    }
}

/// What follows a sign, or none, is left without it.
proof fn lemma_unsigned(sign: Seq<char>, rest: Seq<char>)
    requires
        is_sign(sign),
        rest.len() > 0,
        rest.first() != '+' && rest.first() != '-',
    ensures
        number::unsigned(sign + rest) == rest,
{
    if sign.len() == 0 {
        assert(sign + rest =~= rest);
    } else {
        assert((sign + rest).first() == sign[0]);
        assert((sign + rest).drop_first() =~= rest);
    }
}

/// What reads as a number is, after a sign or none, a plain number, a plain number with an
/// exponent, or one of the words for what is infinite or no number; nothing else reads as one.
pub proof fn nothing_else_reads_as_a_number(text: Seq<char>)
    requires
        number::is_float_text(text),
    ensures
        exists|sign: Seq<char>, rest: Seq<char>| #[trigger]
            signs(text, sign, rest) && (is_plain(rest) || is_scientific(rest) || is_word(rest)),
{
    let rest = number::unsigned(text);
    let sign = text.take(text.len() - rest.len());
    assert(text =~= sign + rest);
    assert(signs(text, sign, rest));
    if number::is_mantissa(rest) {
        mantissas_are_digits_around_a_point(rest);
    } else if number::is_number(rest) {
        let split = choose|split: int|
            0 <= split <= rest.len() && number::is_mantissa(rest.take(split))
                && number::is_exponent(#[trigger] rest.skip(split));
        let plain = rest.take(split);
        let power = rest.skip(split);
        mantissas_are_digits_around_a_point(plain);
        let digits = number::unsigned(power.drop_first());
        let mark = power.take(power.len() - digits.len());
        assert(rest =~= plain + mark + digits);
        assert(mark[0] == power[0]);
        if mark.len() == 2 {
            assert(mark[1] == power.drop_first()[0]);
        }
        assert(scientific(rest, plain, mark, digits));
    } else {
        texts::case_is_all_that_may_differ(rest, "inf"@);
        texts::case_is_all_that_may_differ(rest, "infinity"@);
        texts::case_is_all_that_may_differ(rest, "nan"@);
    }
}

/// `text` is a sign, or none, and then `rest`.
pub open spec fn signs(text: Seq<char>, sign: Seq<char>, rest: Seq<char>) -> bool {
    is_sign(sign) && text == sign + rest
}

/// `text` is a plain number, the letter of an exponent with a sign or none, and digits.
pub open spec fn scientific(
    text: Seq<char>,
    plain: Seq<char>,
    mark: Seq<char>,
    digits: Seq<char>,
) -> bool {
    &&& text == plain + mark + digits
    &&& is_plain(plain)
    &&& 1 <= mark.len() <= 2
    &&& mark[0] == 'e' || mark[0] == 'E'
    &&& mark.len() == 2 ==> mark[1] == '+' || mark[1] == '-'
    &&& digits.len() > 0
    &&& decimal::all_digits(digits)
}

/// `text` is a plain number with an exponent.
pub open spec fn is_scientific(text: Seq<char>) -> bool {
    exists|plain: Seq<char>, mark: Seq<char>, digits: Seq<char>|
        scientific(text, plain, mark, digits)
}

/// `text` is `word`, but for the case of its letters.
pub open spec fn spells(text: Seq<char>, word: Seq<char>) -> bool {
    &&& text.len() == word.len()
    &&& forall|i: int| 0 <= i < word.len() ==> texts::alike(#[trigger] text[i], word[i])
}

/// `text` is one of the words for what is infinite or no number.
pub open spec fn is_word(text: Seq<char>) -> bool {
    spells(text, "inf"@) || spells(text, "infinity"@) || spells(text, "nan"@)
}

/// The words for what is infinite or no number are read, in any case and after any sign.
pub proof fn words_are_read(sign: Seq<char>, word: Seq<char>)
    requires
        is_sign(sign),
        is_word(word),
    ensures
        number::is_float_text(sign + word),
{
    reveal_strlit("inf");
    reveal_strlit("infinity");
    reveal_strlit("nan");
    texts::case_is_all_that_may_differ(word, "inf"@);
    texts::case_is_all_that_may_differ(word, "infinity"@);
    texts::case_is_all_that_may_differ(word, "nan"@);
    assert(texts::alike(word[0], 'i') || texts::alike(word[0], 'n'));
    lemma_unsigned(sign, word);
}

} // verus!
