//! What the operations on texts give, character by character.

use vstd::prelude::*;
use vstd::string::*;

use crate::text;

verus! {

/// `pattern` can be read in `text` from position `at` on.
pub open spec fn reads_at(text: Seq<char>, pattern: Seq<char>, at: int) -> bool {
    &&& 0 <= at <= text.len() - pattern.len()
    &&& forall|i: int| 0 <= i < pattern.len() ==> #[trigger] text[at + i] == pattern[i]
}

/// A pattern occurs where each of its characters can be read in its place.
pub proof fn occurrences_are_read(text: Seq<char>, pattern: Seq<char>, at: int)
    ensures
        text::occurs_at(text, pattern, at) <==> reads_at(text, pattern, at),
{
    if 0 <= at <= text.len() - pattern.len() {
        let part = text.subrange(at, at + pattern.len());
        if part == pattern {
            assert forall|i: int| 0 <= i < pattern.len() implies #[trigger] text[at + i]
                == pattern[i] by {
                assert(part[i] == pattern[i]);
            }
        }
        if reads_at(text, pattern, at) {
            assert forall|i: int| 0 <= i < pattern.len() implies part[i] == pattern[i] by {
                assert(text[at + i] == pattern[i]);
            }
            assert(part =~= pattern);
        }
    }
}

/// A text holds a pattern if the pattern can be read at some position, and only then.
pub proof fn held_patterns_can_be_read(text: Seq<char>, pattern: Seq<char>)
    ensures
        text::contains_text(text, pattern) <==> exists|at: int| reads_at(text, pattern, at),
{
    if text::contains_text(text, pattern) {
        let at = choose|at: int| text::occurs_at(text, pattern, at);
        occurrences_are_read(text, pattern, at);
        assert(reads_at(text, pattern, at));
    }
    if exists|at: int| reads_at(text, pattern, at) {
        let at = choose|at: int| reads_at(text, pattern, at);
        occurrences_are_read(text, pattern, at);
        assert(text::occurs_at(text, pattern, at));
    }
}

/// A pattern is found at the leftmost position at which it can be read, and not found only where
/// there is none.
pub proof fn the_leftmost_occurrence_is_found(text: Seq<char>, pattern: Seq<char>)
    ensures
        match text::first_occurrence(text, pattern) {
            Some(at) => reads_at(text, pattern, at) && forall|i: int|
                i < at ==> !#[trigger] reads_at(text, pattern, i),
            None => forall|i: int| !#[trigger] reads_at(text, pattern, i),
        },
{
    text::lemma_first_occurrence(text, pattern);
    assert forall|i: int| text::occurs_at(text, pattern, i) == #[trigger] reads_at(
        text,
        pattern,
        i,
    ) by {
        occurrences_are_read(text, pattern, i);
    }
}

/// What counts as white space, by the numbers of the characters.
pub proof fn white_space_is_that_of_unicode(c: char)
    ensures
        text::is_white_space(c) <==> {
            let n = c as u32;
            9 <= n <= 13 || n == 32 || n == 133 || n == 160 || n == 5760 || 8192 <= n <= 8202 || n
                == 8232 || n == 8233 || n == 8239 || n == 8287 || n == 12288
        },
{
}

/// Trimming takes away white space only, and all that stands at the two ends: `before` characters
/// at the beginning, and at the end whatever is beyond the trimmed text.
pub proof fn trimming_takes_the_white_space_around(text: Seq<char>) -> (before: int)
    ensures
        ({
            let inner = text::trimmed(text);
            &&& 0 <= before <= text.len() - inner.len()
            &&& inner == text.subrange(before, before + inner.len())
            &&& forall|i: int|
                (0 <= i < before || before + inner.len() <= i < text.len())
                    ==> text::is_white_space(#[trigger] text[i])
            &&& inner.len() > 0 ==> !text::is_white_space(inner[0]) && !text::is_white_space(
                inner[inner.len() - 1],
            )
        }),
    decreases text.len(),
{
    let inner = text::trimmed(text);
    if text.len() > 0 && text::is_white_space(text.first()) {
        let rest = text.drop_first();
        let before = trimming_takes_the_white_space_around(rest);
        assert(inner =~= text.subrange(before + 1, before + 1 + inner.len()));
        assert forall|i: int|
            (0 <= i < before + 1 || before + 1 + inner.len() <= i < text.len()) implies text::is_white_space(
            #[trigger] text[i],
        ) by {
            if i > 0 {
                assert(rest[i - 1] == text[i]);
            }
        }
        before + 1
    } else if text.len() > 0 && text::is_white_space(text.last()) {
        let rest = text.drop_last();
        let before = trimming_takes_the_white_space_around(rest);
        assert(inner =~= text.subrange(before, before + inner.len()));
        assert forall|i: int|
            (0 <= i < before || before + inner.len() <= i < text.len()) implies text::is_white_space(
            #[trigger] text[i],
        ) by {
            if i < text.len() - 1 {
                assert(rest[i] == text[i]);
            }
        }
        before
    } else {
        assert(inner =~= text.subrange(0, inner.len() as int));
        0
    }
}

/// A text without white space at its ends stays as it is under trimming, whatever white space is
/// put around it.
pub proof fn white_space_around_does_not_count(
    before: Seq<char>,
    inner: Seq<char>,
    after: Seq<char>,
)
    requires
        forall|i: int| 0 <= i < before.len() ==> text::is_white_space(#[trigger] before[i]),
        forall|i: int| 0 <= i < after.len() ==> text::is_white_space(#[trigger] after[i]),
        inner.len() > 0 ==> !text::is_white_space(inner[0]) && !text::is_white_space(
            inner[inner.len() - 1],
        ),
    ensures
        text::trimmed(before + inner + after) == inner,
    decreases before.len() + after.len(),
{
    let whole = before + inner + after;
    if before.len() > 0 {
        assert(whole.first() == before[0]);
        assert(whole.drop_first() =~= before.drop_first() + inner + after);
        white_space_around_does_not_count(before.drop_first(), inner, after);
    } else if inner.len() > 0 {
        assert(whole.first() == inner[0]);
        if after.len() > 0 {
            assert(whole.last() == after[after.len() - 1]);
            assert(whole.drop_last() =~= before + inner + after.drop_last());
            white_space_around_does_not_count(before, inner, after.drop_last());
        } else {
            assert(whole =~= inner);
            assert(whole.last() == inner[inner.len() - 1]);
        }
    } else if after.len() > 0 {
        assert(whole =~= after);
        assert(whole.first() == after[0]);
        assert(whole.drop_first() =~= before + inner + after.drop_first());
        white_space_around_does_not_count(before, inner, after.drop_first());
    } else {
        assert(whole =~= inner);
    }
}

/// Of marks at the end of a text none is left, and nothing but marks is taken away.
pub proof fn only_marks_at_the_end_are_dropped(text: Seq<char>, mark: char)
    ensures
        ({
            let rest = text::without_trailing(text, mark);
            &&& rest.len() <= text.len()
            &&& rest == text.take(rest.len() as int)
            &&& forall|i: int| rest.len() <= i < text.len() ==> #[trigger] text[i] == mark
            &&& rest.len() > 0 ==> rest[rest.len() - 1] != mark
        }),
    decreases text.len(),
{
    let rest = text::without_trailing(text, mark);
    if text.len() > 0 && text.last() == mark {
        let shorter = text.drop_last();
        only_marks_at_the_end_are_dropped(shorter, mark);
        assert(rest =~= text.take(rest.len() as int));
        assert forall|i: int| rest.len() <= i < text.len() implies #[trigger] text[i] == mark by {
            if i < text.len() - 1 {
                assert(shorter[i] == text[i]);
            }
        }
    } else {
        assert(rest =~= text.take(rest.len() as int));
    }
}

/// Each comma becomes a point, and every other character stays what it is, where it is.
pub proof fn only_commas_are_replaced(text: Seq<char>)
    ensures
        text::points_for_commas(text).len() == text.len(),
        forall|i: int|
            0 <= i < text.len() ==> {
                &&& text[i] == ',' ==> #[trigger] text::points_for_commas(text)[i] == '.'
                &&& text[i] != ',' ==> text::points_for_commas(text)[i] == text[i]
            },
{
}

/// Nothing joined is nothing, one part joined is that part, and two lists of parts joined one
/// after the other have the separator between them.
pub proof fn joined_parts_have_the_separator_between_them(
    first: Seq<Seq<char>>,
    second: Seq<Seq<char>>,
    part: Seq<char>,
    separator: Seq<char>,
)
    ensures
        text::joined(Seq::empty(), separator) == Seq::<char>::empty(),
        text::joined(seq![part], separator) == part,
        first.len() > 0 && second.len() > 0 ==> text::joined(first + second, separator)
            == text::joined(first, separator) + separator + text::joined(second, separator),
    decreases second.len(),
{
    if first.len() > 0 && second.len() > 0 {
        let whole = first + second;
        assert(whole.drop_last() =~= first + second.drop_last());
        assert(whole.last() == second.last());
        if second.len() > 1 {
            joined_parts_have_the_separator_between_them(
                first,
                second.drop_last(),
                part,
                separator,
            );
            assert(text::joined(whole, separator) =~= text::joined(first, separator) + separator
                + text::joined(second, separator));
        } else {
            assert(whole.drop_last() =~= first);
            assert(second.first() == second.last());
        }
    }
}

/// Small letters are the capital ones, thirty-two further on; other characters have none.
pub proof fn ascii_capitals_are_made_small(c: char)
    ensures
        65 <= c as u32 <= 90 ==> text::ascii_lower(c) as u32 == c as u32 + 32,
        !(65 <= c as u32 <= 90) ==> text::ascii_lower(c) == c,
{
}

/// Two characters are the same, or the same ASCII letter, capital and small.
pub open spec fn alike(a: char, b: char) -> bool {
    ||| a == b
    ||| 65 <= a as u32 <= 90 && b as u32 == a as u32 + 32
    ||| 65 <= b as u32 <= 90 && a as u32 == b as u32 + 32
}

/// Two texts are the same but for case if they are as long as each other and alike at every
/// position.
pub proof fn case_is_all_that_may_differ(a: Seq<char>, b: Seq<char>)
    ensures
        text::same_ignoring_ascii_case(a, b) <==> {
            &&& a.len() == b.len()
            &&& forall|i: int| 0 <= i < a.len() ==> alike(#[trigger] a[i], b[i])
        },
{
    let lower_a = a.map_values(|c: char| text::ascii_lower(c));
    let lower_b = b.map_values(|c: char| text::ascii_lower(c));
    if lower_a == lower_b {
        assert(lower_a.len() == a.len() && lower_b.len() == b.len());
        assert forall|i: int| 0 <= i < a.len() implies alike(#[trigger] a[i], b[i]) by {
            assert(lower_a[i] == lower_b[i]);
        }
    }
    if a.len() == b.len() && forall|i: int| 0 <= i < a.len() ==> alike(#[trigger] a[i], b[i]) {
        assert forall|i: int| 0 <= i < a.len() implies lower_a[i] == lower_b[i] by {
            assert(alike(a[i], b[i]));
        }
        assert(lower_a =~= lower_b);
    }
}

/// ASCII characters are those with numbers below 128.
pub proof fn ascii_ends_before_128(text: Seq<char>)
    ensures
        text::all_ascii(text) <==> forall|i: int|
            0 <= i < text.len() ==> (#[trigger] text[i]) as int <= 127,
{
    if text::all_ascii(text) {
        assert forall|i: int| 0 <= i < text.len() implies (#[trigger] text[i]) as int <= 127 by {
            assert(text[i] <= '\u{7f}');
        }
    }
    if forall|i: int| 0 <= i < text.len() ==> (#[trigger] text[i]) as int <= 127 {
        assert forall|i: int| 0 <= i < text.len() implies #[trigger] text[i] <= '\u{7f}' by {
            assert(text[i] as int <= 127);
        }
    }
}

} // verus!
