//! What the `scraper` crate reads out of HTML, as plain texts.

use scraper::{ElementRef, Html, Selector};
use vstd::prelude::*;

use crate::text;

verus! {

/// The most room, in bytes, that a document may take up once it is read: a text of it is kept in a
/// buffer of at most 2^31 bytes.
pub const DOCUMENT_LIMIT: usize = 0x8000_0000;

/// The most characters that a selector may have. Reading a selector recurses into the selectors
/// nested in it.
pub const SELECTOR_LIMIT: usize = 256;

/// The most room, in bytes, that a character takes up once a document is read. A NUL may become
/// U+FFFD, which takes three. An ampersand may begin a character reference, and none of these
/// (`&nLt;` and `&nGt;` come closest) grows by more than one. Any other character takes what it
/// takes in UTF-8.
pub open spec fn room_of(c: char) -> nat {
    if c == '\u{0}' {
        3
    } else if c == '&' {
        2
    } else if c <= '\u{7f}' {
        1
    } else if c <= '\u{7ff}' {
        2
    } else if c <= '\u{ffff}' {
        3
    } else {
        4
    }
}

/// The most room, in bytes, that the texts of a document take up once it is read.
pub open spec fn room(document: Seq<char>) -> nat
    decreases document.len(),
{
    if document.len() == 0 {
        0
    } else {
        room(document.drop_last()) + room_of(document.last())
    }
}

/// The document is short enough to be read.
pub open spec fn is_readable(document: Seq<char>) -> bool {
    room(document) <= DOCUMENT_LIMIT
}

/// The most room, in bytes, that a character takes up once a document is read.
fn room_for(c: char) -> (bytes: usize)
    ensures
        bytes == room_of(c),
{
    if c == '\u{0}' {
        3
    } else if c == '&' {
        2
    } else if c <= '\u{7f}' {
        1
    } else if c <= '\u{7ff}' {
        2
    } else if c <= '\u{ffff}' {
        3
    } else {
        4
    }
}

/// The document is short enough to be read.
pub fn readable(document: &str) -> (answer: bool)
    ensures
        answer == is_readable(document@),
{
    let chars = text::chars_of(document);
    let mut bytes: usize = 0;
    let mut i: usize = 0;
    while i < chars.len()
        invariant
            i <= chars@.len(),
            chars@ == document@,
            bytes == room(document@.take(i as int)),
            bytes <= DOCUMENT_LIMIT,
        decreases chars@.len() - i,
    {
        let more = room_for(chars[i]);
        assert(document@.take(i + 1).drop_last() =~= document@.take(i as int));
        if more > DOCUMENT_LIMIT - bytes {
            proof {
                lemma_room(document@.take(i + 1), document@.skip(i + 1));
                assert(document@.take(i + 1) + document@.skip(i + 1) =~= document@);
            }
            return false;
        }
        bytes = bytes + more;
        i += 1;
    }
    assert(document@.take(i as int) =~= document@);
    true
}

/// What is put together of two texts takes up the room of the two.
proof fn lemma_room(first: Seq<char>, second: Seq<char>)
    ensures
        room(first + second) == room(first) + room(second),
    decreases second.len(),
{
    if second.len() == 0 {
        assert(first + second =~= first);
    } else {
        lemma_room(first, second.drop_last());
        assert((first + second).drop_last() =~= first + second.drop_last());
    }
}

/// Each part of a document that is short enough to be read is so too.
pub proof fn parts_are_readable(document: Seq<char>, from: int, to: int)
    requires
        0 <= from <= to <= document.len(),
        is_readable(document),
    ensures
        is_readable(document.subrange(from, to)),
{
    let part = document.subrange(from, to);
    lemma_room(document.take(from), part);
    lemma_room(document.take(from) + part, document.skip(to));
    assert(document.take(from) + part + document.skip(to) =~= document);
}

/// A character takes up at most four bytes.
proof fn lemma_room_bound(document: Seq<char>)
    ensures
        room(document) <= document.len() * 4,
    decreases document.len(),
{
    if document.len() > 0 {
        lemma_room_bound(document.drop_last());
    }
}

/// A document of at most a quarter as many characters as there may be bytes is short enough to be
/// read.
pub proof fn short_documents_are_readable(document: Seq<char>)
    requires
        document.len() * 4 <= DOCUMENT_LIMIT,
    ensures
        is_readable(document),
{
    lemma_room_bound(document);
}

/// The text nodes of the first element of an HTML document that a CSS selector matches: `None`
/// where the selector cannot be read, `Some(None)` where it matches nothing.
pub uninterp spec fn document_texts(
    document: Seq<char>,
    selector: Seq<char>,
) -> Option<Option<Seq<Seq<char>>>>;

/// The value that an attribute has on the first element of an HTML document that a CSS selector
/// matches, if the selector can be read and there are such an element and such an attribute.
pub uninterp spec fn document_attribute(
    document: Seq<char>,
    selector: Seq<char>,
    attribute: Seq<char>,
) -> Option<Seq<char>>;

/// For each element of an HTML fragment that the CSS selector `row` matches, the text nodes of
/// the first element below it that `first` matches, and those of the first that `second` matches:
/// `None` where one of the three selectors cannot be read.
pub uninterp spec fn fragment_rows(
    fragment: Seq<char>,
    row: Seq<char>,
    first: Seq<char>,
    second: Seq<char>,
) -> Option<Seq<(Option<Seq<Seq<char>>>, Option<Seq<Seq<char>>>)>>;

/// Reads a document with `scraper::Html::parse_document`, reads the selector with
/// `scraper::Selector::parse`, and gives the text nodes (`scraper::ElementRef::text`) of the first
/// element that `scraper::Html::select` yields. Trusted: the result is a function of the two
/// texts alone, and is named [`document_texts`]. Longer documents, whose texts may outgrow the
/// buffers that `scraper` keeps them in, and longer selectors, which it may not have the stack to
/// read, are left out: on them the calls may panic.
#[verifier::external_body]
pub(crate) fn select_texts(document: &str, selector: &str) -> (texts: Option<Option<Vec<String>>>)
    requires
        is_readable(document@),
        selector@.len() <= SELECTOR_LIMIT,
    ensures
        texts.deep_view() == document_texts(document@, selector@),
{
    let selector = Selector::parse(selector).ok()?;
    let html = Html::parse_document(document);
    let element = html.select(&selector).next();
    Some(element.map(|e: ElementRef| e.text().map(String::from).collect()))
}

/// Reads a document and a selector as [`select_texts`] does, and gives the value of an attribute
/// (`scraper::node::Element::attr`) of the first element selected. Trusted: the result is a
/// function of the three texts alone, and is named [`document_attribute`]. The same documents and
/// selectors are left out.
#[verifier::external_body]
pub(crate) fn select_attribute(document: &str, selector: &str, attribute: &str) -> (value: Option<
    String,
>)
    requires
        is_readable(document@),
        selector@.len() <= SELECTOR_LIMIT,
    ensures
        value.deep_view() == document_attribute(document@, selector@, attribute@),
{
    let selector = Selector::parse(selector).ok()?;
    let html = Html::parse_document(document);
    let element = html.select(&selector).next()?;
    element.value().attr(attribute).map(String::from)
}

/// Reads a fragment with `scraper::Html::parse_fragment` and the three selectors with
/// `scraper::Selector::parse`, and gives, for each element that `scraper::Html::select` yields for
/// `row`, the text nodes of the first elements that `scraper::ElementRef::select` yields below it.
/// Trusted: the result is a function of the four texts alone, and is named [`fragment_rows`]. The
/// fragments and selectors that [`select_texts`] leaves out are left out here too.
#[verifier::external_body]
pub(crate) fn select_rows(fragment: &str, row: &str, first: &str, second: &str) -> (rows: Option<
    Vec<(Option<Vec<String>>, Option<Vec<String>>)>,
>)
    requires
        is_readable(fragment@),
        row@.len() <= SELECTOR_LIMIT,
        first@.len() <= SELECTOR_LIMIT,
        second@.len() <= SELECTOR_LIMIT,
    ensures
        rows.deep_view() == fragment_rows(fragment@, row@, first@, second@),
{
    let row = Selector::parse(row).ok()?;
    let first = Selector::parse(first).ok()?;
    let second = Selector::parse(second).ok()?;
    let texts = |e: ElementRef| e.text().map(String::from).collect();
    let html = Html::parse_fragment(fragment);
    let cells = |r: ElementRef| {
        (r.select(&first).next().map(texts), r.select(&second).next().map(texts))
    };
    Some(html.select(&row).map(cells).collect())
}

} // verus!
