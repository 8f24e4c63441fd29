//! How long a document may be to be read.

use vstd::prelude::*;

use crate::html;
use crate::profile;

verus! {

/// A document may be read if it takes up at most 2^31 bytes: three for a NUL, two for an
/// ampersand, and what they take in UTF-8 for all other characters.
pub proof fn documents_up_to_two_gibibytes_are_read(document: Seq<char>)
    ensures
        html::is_readable(document) <==> html::room(document) <= 0x8000_0000,
        html::room(Seq::empty()) == 0,
        forall|c: char| #[trigger]
            html::room(document.push(c)) == html::room(document) + if c as int == 0 {
                3int
            } else if c as int == 38 {
                2
            } else if (c as int) < 0x80 {
                1
            } else if (c as int) < 0x800 {
                2
            } else if (c as int) < 0x1_0000 {
                3
            } else {
                4
            },
{
    assert forall|c: char| #[trigger]
        html::room(document.push(c)) == html::room(document) + html::room_of(c) by {
        assert(document.push(c).drop_last() =~= document);
    }
}

/// A table may be read if each of its sections may, and only then.
pub proof fn tables_are_read_if_their_sections_are(xml: Seq<char>)
    ensures
        profile::sections_are_readable(xml) <==> forall|i: int|
            0 <= i < profile::cdata_sections(xml).len() ==> html::room(
                #[trigger] profile::cdata_sections(xml)[i],
            ) <= 0x8000_0000,
{
    if forall|i: int|
        0 <= i < profile::cdata_sections(xml).len() ==> html::room(
            #[trigger] profile::cdata_sections(xml)[i],
        ) <= 0x8000_0000 {
        assert(profile::sections_are_readable(xml));
    }
    if profile::sections_are_readable(xml) {
        assert forall|i: int| 0 <= i < profile::cdata_sections(xml).len() implies html::room(
            #[trigger] profile::cdata_sections(xml)[i],
        ) <= 0x8000_0000 by {
            assert(html::is_readable(profile::cdata_sections(xml)[i]));
        }
    }
}

} // verus!
