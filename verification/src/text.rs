//! Text operations over sequences of characters.

use vstd::prelude::*;
use vstd::string::*;

verus! {

/// `pattern` stands in `text` at position `at`.
pub open spec fn occurs_at(text: Seq<char>, pattern: Seq<char>, at: int) -> bool {
    &&& 0 <= at
    &&& at + pattern.len() <= text.len()
    &&& text.subrange(at, at + pattern.len()) == pattern
}

/// `pattern` stands somewhere in `text`.
pub open spec fn contains_text(text: Seq<char>, pattern: Seq<char>) -> bool {
    exists|at: int| occurs_at(text, pattern, at)
}

/// `at` is the leftmost position at which `pattern` stands in `text`.
pub open spec fn is_first_occurrence(text: Seq<char>, pattern: Seq<char>, at: int) -> bool {
    &&& occurs_at(text, pattern, at)
    &&& forall|earlier: int| 0 <= earlier < at ==> !occurs_at(text, pattern, earlier)
}

/// The leftmost position at which `pattern` stands in `text`, if it stands there at all.
pub open spec fn first_occurrence(text: Seq<char>, pattern: Seq<char>) -> Option<int> {
    if contains_text(text, pattern) {
        Some(choose|at: int| is_first_occurrence(text, pattern, at))
    } else {
        None
    }
}

/// Two leftmost positions of the same pattern are one.
pub proof fn lemma_first_occurrence_at(text: Seq<char>, pattern: Seq<char>, at: int)
    requires
        is_first_occurrence(text, pattern, at),
    ensures
        first_occurrence(text, pattern) == Some(at),
{
    let found = choose|i: int| is_first_occurrence(text, pattern, i);
    assert(occurs_at(text, pattern, at));
    if found < at {
        assert(!occurs_at(text, pattern, found));
    } else if at < found {
        assert(!occurs_at(text, pattern, at));
    }
}

/// A text that holds a pattern holds it at a leftmost position.
pub proof fn lemma_first_occurrence_exists(text: Seq<char>, pattern: Seq<char>, at: int)
    requires
        occurs_at(text, pattern, at),
    ensures
        exists|i: int| i <= at && is_first_occurrence(text, pattern, i),
    decreases at,
{
    if exists|i: int| 0 <= i < at && occurs_at(text, pattern, i) {
        let i = choose|i: int| 0 <= i < at && occurs_at(text, pattern, i);
        lemma_first_occurrence_exists(text, pattern, i);
    } else {
        assert(is_first_occurrence(text, pattern, at));
    }
}

/// What [`first_occurrence`] gives is a leftmost position.
pub proof fn lemma_first_occurrence(text: Seq<char>, pattern: Seq<char>)
    ensures
        match first_occurrence(text, pattern) {
            Some(at) => is_first_occurrence(text, pattern, at),
            None => forall|at: int| !occurs_at(text, pattern, at),
        },
{
    if contains_text(text, pattern) {
        let at = choose|at: int| occurs_at(text, pattern, at);
        lemma_first_occurrence_exists(text, pattern, at);
    }
}

/// No proper end of `pattern` is also a beginning of it, so that no two of its occurrences
/// overlap.
pub open spec fn overlaps_nowhere(pattern: Seq<char>) -> bool {
    forall|k: int|
        0 < k < pattern.len() ==> #[trigger] pattern.skip(k) != pattern.take(pattern.len() - k)
}

/// A pattern that cannot overlap itself, put after a text that does not hold it, first stands
/// right there.
pub proof fn lemma_first_occurrence_after(before: Seq<char>, pattern: Seq<char>, after: Seq<char>)
    requires
        !contains_text(before, pattern),
        pattern.len() > 0,
        overlaps_nowhere(pattern),
    ensures
        first_occurrence(before + pattern + after, pattern) == Some(before.len() as int),
{
    let whole = before + pattern + after;
    let n = before.len() as int;
    assert(whole.subrange(n, n + pattern.len()) =~= pattern);
    assert forall|i: int| 0 <= i < n implies !occurs_at(whole, pattern, i) by {
        if occurs_at(whole, pattern, i) {
            let found = whole.subrange(i, i + pattern.len());
            if i + pattern.len() <= n {
                assert(before.subrange(i, i + pattern.len()) =~= found);
                assert(occurs_at(before, pattern, i));
            } else {
                let k = n - i;
                assert forall|j: int| 0 <= j < pattern.len() - k implies pattern.skip(k)[j]
                    == pattern.take(pattern.len() - k)[j] by {
                    assert(found[k + j] == whole[n + j]);
                }
                assert(pattern.skip(k) =~= pattern.take(pattern.len() - k));
            }
        }
    }
    lemma_first_occurrence_at(whole, pattern, n);
}

/// The characters of `s`.
pub fn chars_of(s: &str) -> (chars: Vec<char>)
    ensures
        chars@ == s@,
{
    let mut chars: Vec<char> = Vec::new();
    for c in it: s.chars()
        invariant
            chars@ == it.seq().take(it.index()),
            it.seq() == s@,
    {
        chars.push(c);
    }
    chars
}

/// `pattern` stands in `text` at position `at`.
fn matches_at(text: &Vec<char>, pattern: &Vec<char>, at: usize) -> (found: bool)
    requires
        at + pattern@.len() <= text@.len(),
    ensures
        found == occurs_at(text@, pattern@, at as int),
{
    let length: usize = text.len();
    let mut i: usize = 0;
    while i < pattern.len()
        invariant
            i <= pattern@.len(),
            at + pattern@.len() <= text@.len() == length,
            forall|j: int| 0 <= j < i ==> text@[at + j] == pattern@[j],
        decreases pattern@.len() - i,
    {
        if text[at + i] != pattern[i] {
            assert(text@.subrange(at as int, at + pattern@.len())[i as int] != pattern@[i as int]);
            return false;
        }
        i += 1;
    }
    assert(text@.subrange(at as int, at + pattern@.len()) =~= pattern@);
    true
}

/// Where `pattern` first stands in the part of `text` from `from` on, counted from `from`.
pub fn find_from(text: &Vec<char>, pattern: &Vec<char>, from: usize) -> (at: Option<usize>)
    requires
        from <= text@.len(),
    ensures
        match at {
            Some(at) => first_occurrence(text@.skip(from as int), pattern@) == Some(at as int)
                && from + at + pattern@.len() <= text@.len(),
            None => first_occurrence(text@.skip(from as int), pattern@) is None,
        },
{
    let ghost rest = text@.skip(from as int);
    if pattern.len() > text.len() - from {
        return None;
    }
    let last: usize = text.len() - pattern.len();
    let mut at: usize = from;
    loop
        invariant
            from <= at <= last,
            last == text@.len() - pattern@.len(),
            rest == text@.skip(from as int),
            forall|i: int| 0 <= i < at - from ==> !occurs_at(rest, pattern@, i),
        decreases last - at,
    {
        proof {
            assert(rest.subrange(at - from, at - from + pattern@.len()) =~= text@.subrange(
                at as int,
                at + pattern@.len(),
            ));
        }
        if matches_at(text, pattern, at) {
            proof {
                lemma_first_occurrence_at(rest, pattern@, at - from);
            }
            return Some(at - from);
        }
        if at == last {
            return None;
        }
        at += 1;
    }
}

/// `pattern` stands somewhere in `text`.
pub fn holds(text: &str, pattern: &str) -> (found: bool)
    ensures
        found == contains_text(text@, pattern@),
{
    let text_chars = chars_of(text);
    let pattern_chars = chars_of(pattern);
    let found = find_from(&text_chars, &pattern_chars, 0).is_some();
    proof {
        assert(text@.skip(0) =~= text@);
        lemma_first_occurrence(text@, pattern@);
    }
    found
}

/// The characters with the Unicode property `White_Space`.
pub open spec fn is_white_space(c: char) -> bool {
    ||| '\u{9}' <= c <= '\u{d}'
    ||| c == '\u{20}'
    ||| c == '\u{85}'
    ||| c == '\u{a0}'
    ||| c == '\u{1680}'
    ||| '\u{2000}' <= c <= '\u{200a}'
    ||| c == '\u{2028}'
    ||| c == '\u{2029}'
    ||| c == '\u{202f}'
    ||| c == '\u{205f}'
    ||| c == '\u{3000}'
}

/// `c` has the Unicode property `White_Space`.
pub fn white_space(c: char) -> (answer: bool)
    ensures
        answer == is_white_space(c),
{
    ('\u{9}' <= c && c <= '\u{d}') || c == '\u{20}' || c == '\u{85}' || c == '\u{a0}' || c
        == '\u{1680}' || ('\u{2000}' <= c && c <= '\u{200a}') || c == '\u{2028}' || c == '\u{2029}'
        || c == '\u{202f}' || c == '\u{205f}' || c == '\u{3000}'
}

/// `text` without the white space at its two ends.
pub open spec fn trimmed(text: Seq<char>) -> Seq<char>
    decreases text.len(),
{
    if text.len() > 0 && is_white_space(text.first()) {
        trimmed(text.drop_first())
    } else if text.len() > 0 && is_white_space(text.last()) {
        trimmed(text.drop_last())
    } else {
        text
    }
}

/// `text` without the white space at its two ends.
pub fn trim(text: &str) -> (result: String)
    ensures
        result@ == trimmed(text@),
{
    let chars = chars_of(text);
    let mut start: usize = 0;
    let mut end: usize = chars.len();
    assert(text@.subrange(0, end as int) =~= text@);
    while start < end && white_space(chars[start])
        invariant
            start <= end == chars@.len(),
            chars@ == text@,
            trimmed(text@) == trimmed(text@.subrange(start as int, end as int)),
        decreases end - start,
    {
        assert(text@.subrange(start as int, end as int).drop_first() =~= text@.subrange(
            start + 1,
            end as int,
        ));
        start += 1;
    }
    while start < end && white_space(chars[end - 1])
        invariant
            start <= end <= chars@.len(),
            chars@ == text@,
            start < end ==> !is_white_space(text@[start as int]),
            trimmed(text@) == trimmed(text@.subrange(start as int, end as int)),
        decreases end - start,
    {
        assert(text@.subrange(start as int, end as int).drop_last() =~= text@.subrange(
            start as int,
            end - 1,
        ));
        end -= 1;
    }
    text.substring_char(start, end).to_owned()
}

/// `text` without the characters `mark` at its end.
pub open spec fn without_trailing(text: Seq<char>, mark: char) -> Seq<char>
    decreases text.len(),
{
    if text.len() > 0 && text.last() == mark {
        without_trailing(text.drop_last(), mark)
    } else {
        text
    }
}

/// `text` without the characters `mark` at its end.
pub fn trim_end_matches(text: &str, mark: char) -> (result: String)
    ensures
        result@ == without_trailing(text@, mark),
{
    let chars = chars_of(text);
    let mut end: usize = chars.len();
    assert(text@.take(end as int) =~= text@);
    while end > 0 && chars[end - 1] == mark
        invariant
            end <= chars@.len(),
            chars@ == text@,
            without_trailing(text@, mark) == without_trailing(text@.take(end as int), mark),
        decreases end,
    {
        assert(text@.take(end as int).drop_last() =~= text@.take(end - 1));
        end -= 1;
    }
    assert(text@.subrange(0, end as int) =~= text@.take(end as int));
    text.substring_char(0, end).to_owned()
}

/// `text` with a point in place of each comma.
pub open spec fn points_for_commas(text: Seq<char>) -> Seq<char> {
    text.map_values(
        |c: char|
            if c == ',' {
                '.'
            } else {
                c
            },
    )
}

/// `text` with a point in place of each comma.
pub fn commas_to_points(text: &str) -> (result: String)
    ensures
        result@ == points_for_commas(text@),
{
    let chars = chars_of(text);
    let mut result = String::new();
    let mut i: usize = 0;
    while i < chars.len()
        invariant
            i <= chars@.len(),
            chars@ == text@,
            result@ == points_for_commas(text@.take(i as int)),
        decreases chars@.len() - i,
    {
        proof {
            reveal_strlit(".");
            assert(points_for_commas(text@.take(i + 1)) =~= points_for_commas(
                text@.take(i as int),
            ).push(
                if text@[i as int] == ',' {
                    '.'
                } else {
                    text@[i as int]
                },
            ));
        }
        if chars[i] == ',' {
            result.append(".");
        } else {
            result.append(text.substring_char(i, i + 1));
        }
        assert(result@ =~= points_for_commas(text@.take(i + 1)));
        i += 1;
    }
    assert(text@.take(i as int) =~= text@);
    result
}

/// The texts of `parts` in their order, with `separator` between each two.
pub open spec fn joined(parts: Seq<Seq<char>>, separator: Seq<char>) -> Seq<char>
    decreases parts.len(),
{
    if parts.len() == 0 {
        Seq::empty()
    } else if parts.len() == 1 {
        parts.first()
    } else {
        joined(parts.drop_last(), separator) + separator + parts.last()
    }
}

/// The texts of `parts` in their order, with `separator` between each two.
pub fn join(parts: &Vec<String>, separator: &str) -> (result: String)
    ensures
        result@ == joined(parts.deep_view(), separator@),
{
    let ghost views = parts.deep_view();
    let mut result = String::new();
    let mut i: usize = 0;
    while i < parts.len()
        invariant
            i <= parts@.len(),
            views == parts.deep_view(),
            result@ == joined(views.take(i as int), separator@),
        decreases parts@.len() - i,
    {
        let ghost longer = views.take(i + 1);
        proof {
            assert(longer.drop_last() =~= views.take(i as int));
            assert(longer.last() == parts@[i as int]@);
        }
        if i > 0 {
            result.append(separator);
        }
        result.append(parts[i].as_str());
        proof {
            if i == 0 {
                assert(result@ =~= longer.first());
            }
        }
        i += 1;
    }
    assert(views.take(i as int) =~= views);
    result
}

/// An ASCII capital letter as a small one, any other character as it is.
pub open spec fn ascii_lower(c: char) -> char {
    if 'A' <= c <= 'Z' {
        (c as u8 + 32) as u8 as char
    } else {
        c
    }
}

/// The two texts are the same but for the case of ASCII letters.
pub open spec fn same_ignoring_ascii_case(a: Seq<char>, b: Seq<char>) -> bool {
    a.map_values(|c: char| ascii_lower(c)) == b.map_values(|c: char| ascii_lower(c))
}

/// An ASCII capital letter as a small one, any other character as it is.
fn to_ascii_lower(c: char) -> (lower: char)
    ensures
        lower == ascii_lower(c),
{
    if 'A' <= c && c <= 'Z' {
        (c as u8 + 32) as char
    } else {
        c
    }
}

/// The two texts are the same but for the case of ASCII letters.
pub fn eq_ignore_ascii_case(a: &str, b: &str) -> (same: bool)
    ensures
        same == same_ignoring_ascii_case(a@, b@),
{
    let left = chars_of(a);
    let right = chars_of(b);
    let ghost lower_a = a@.map_values(|c: char| ascii_lower(c));
    let ghost lower_b = b@.map_values(|c: char| ascii_lower(c));
    if left.len() != right.len() {
        assert(lower_a.len() != lower_b.len());
        return false;
    }
    let mut i: usize = 0;
    while i < left.len()
        invariant
            i <= left@.len() == right@.len(),
            left@ == a@,
            right@ == b@,
            lower_a == a@.map_values(|c: char| ascii_lower(c)),
            lower_b == b@.map_values(|c: char| ascii_lower(c)),
            forall|j: int| 0 <= j < i ==> lower_a[j] == lower_b[j],
        decreases left@.len() - i,
    {
        if to_ascii_lower(left[i]) != to_ascii_lower(right[i]) {
            assert(lower_a[i as int] != lower_b[i as int]);
            return false;
        }
        i += 1;
    }
    assert(lower_a =~= lower_b);
    true
}

/// A text in small letters, by the rules of Unicode.
pub uninterp spec fn lowercased(text: Seq<char>) -> Seq<char>;

/// Every character of `text` is an ASCII character.
pub open spec fn all_ascii(text: Seq<char>) -> bool {
    forall|i: int| 0 <= i < text.len() ==> #[trigger] text[i] <= '\u{7f}'
}

/// Calls `str::to_lowercase`. Trusted: the result is a function of the text alone, and is named
/// [`lowercased`]; of a text in ASCII it is the text with the capital letters made small.
#[verifier::external_body]
pub(crate) fn to_lowercase(text: &str) -> (lower: String)
    ensures
        lower@ == lowercased(text@),
        all_ascii(text@) ==> lower@ == text@.map_values(|c: char| ascii_lower(c)),
{
    text.to_lowercase()
}

} // verus!
