//! Text as sequences of characters: what it means for one text to occur in
//! another, and the three operations on `str` that the search takes from the
//! standard library.

use vstd::prelude::*;
use vstd::utf8::{
    decode_utf8, decode_utf8_split, encode_utf8, encode_utf8_decode_utf8,
    encode_utf8_first_scalar, encode_utf8_valid_utf8, is_char_boundary,
    is_char_boundary_iff_not_is_continuation_byte, is_char_boundary_start_end_of_seq,
    length_of_first_scalar, pop_first_scalar, valid_utf8, valid_utf8_split,
};

verus! {

/// `needle` stands in `hay` at position `at`: the `needle.len()` items of
/// `hay` from `at` on are the items of `needle`.
pub open spec fn occurs_at<A>(needle: Seq<A>, hay: Seq<A>, at: int) -> bool {
    &&& 0 <= at
    &&& at + needle.len() <= hay.len()
    &&& hay.subrange(at, at + needle.len()) == needle
}

/// `needle` is a contiguous part of `hay`, item for item.
pub open spec fn occurs_in<A>(needle: Seq<A>, hay: Seq<A>) -> bool {
    exists|at: int| occurs_at(needle, hay, at)
}

/// The lower-case form that `str::to_lowercase` gives a text.
///
/// The mapping follows the Unicode tables and is not written out here; it
/// depends on the text alone.
pub uninterp spec fn lowercased(text: Seq<char>) -> Seq<char>;

/// What `str::trim` leaves of a text: the text without its leading and
/// trailing whitespace, where whitespace is what Unicode marks `White_Space`.
pub uninterp spec fn trimmed(text: Seq<char>) -> Seq<char>;

/// Calls `str::contains` with a string pattern.
///
/// Trusted, not proved: the call answers whether some sub-slice of `hay`
/// equals `needle`.
#[verifier::external_body]
pub(crate) fn contains(hay: &str, needle: &str) -> (found: bool)
    ensures
        found == occurs_in(needle@, hay@),
{
    hay.contains(needle)
}

/// Calls `str::to_lowercase`.
///
/// Trusted, not proved: the new string is the lower-case form of `text`,
/// which the contract only names.
#[verifier::external_body]
pub(crate) fn to_lowercase(text: &str) -> (lowered: String)
    ensures
        lowered@ == lowercased(text@),
{
    text.to_lowercase()
}

/// Calls `str::trim`.
///
/// Trusted, not proved: the slice handed back is `text` without its leading
/// and trailing whitespace, which the contract only names.
#[verifier::external_body]
pub(crate) fn trim(text: &str) -> (rest: &str)
    ensures
        rest@ == trimmed(text@),
{
    text.trim()
}

/// The encoding of two texts, one after the other, is the encoding of the
/// first followed by the encoding of the second.
pub proof fn lemma_encode_concat(first: Seq<char>, second: Seq<char>)
    ensures
        encode_utf8(first + second) == encode_utf8(first) + encode_utf8(second),
    decreases first.len(),
{
    if first.len() == 0 {
        assert(first + second =~= second);
        assert(encode_utf8(first) + encode_utf8(second) =~= encode_utf8(second));
    } else {
        lemma_encode_concat(first.drop_first(), second);
        assert((first + second).drop_first() =~= first.drop_first() + second);
        assert(encode_utf8(first + second) =~= encode_utf8(first) + encode_utf8(second));
    }
}

/// A valid encoding that stands at the start of another valid encoding ends
/// at a character boundary of it.
proof fn lemma_prefix_ends_at_boundary(prefix: Seq<u8>, whole: Seq<u8>)
    requires
        valid_utf8(prefix),
        valid_utf8(whole),
        prefix.len() <= whole.len(),
        whole.subrange(0, prefix.len() as int) == prefix,
    ensures
        is_char_boundary(whole, prefix.len() as int),
    decreases prefix.len(),
{
    if prefix.len() != 0 {
        let width = length_of_first_scalar(prefix);
        assert(prefix[0] == whole[0]);
        assert(length_of_first_scalar(whole) == width);
        let rest = pop_first_scalar(prefix);
        let whole_rest = pop_first_scalar(whole);
        assert(whole_rest.subrange(0, rest.len() as int) =~= rest);
        lemma_prefix_ends_at_boundary(rest, whole_rest);
    }
}

/// Law of the exact match. A text occurs in another, character for
/// character, exactly when its UTF-8 bytes occur among the UTF-8 bytes of the
/// other: matching characters and matching bytes are one and the same.
pub proof fn law_occurrence_is_byte_exact(needle: Seq<char>, hay: Seq<char>)
    ensures
        occurs_in(needle, hay) <==> occurs_in(encode_utf8(needle), encode_utf8(hay)),
{
    let needle_bytes = encode_utf8(needle);
    let hay_bytes = encode_utf8(hay);
    encode_utf8_valid_utf8(needle);
    encode_utf8_valid_utf8(hay);
    encode_utf8_decode_utf8(needle);
    encode_utf8_decode_utf8(hay);
    if occurs_in(needle, hay) {
        let at = choose|at: int| occurs_at(needle, hay, at);
        let before = hay.subrange(0, at);
        let after = hay.subrange(at + needle.len(), hay.len() as int);
        assert(hay =~= (before + needle) + after);
        lemma_encode_concat(before + needle, after);
        lemma_encode_concat(before, needle);
        let start = encode_utf8(before).len() as int;
        assert(hay_bytes.subrange(start, start + needle_bytes.len()) =~= needle_bytes);
        assert(occurs_at(needle_bytes, hay_bytes, start));
    }
    if occurs_in(needle_bytes, hay_bytes) {
        let start = choose|start: int| occurs_at(needle_bytes, hay_bytes, start);
        if needle_bytes.len() == 0 {
            assert(needle.len() == 0) by {
                if needle.len() > 0 {
                    encode_utf8_first_scalar(needle);
                }
            }
            assert(hay.subrange(0, 0) =~= needle);
            assert(occurs_at(needle, hay, 0));
        } else {
            assert(hay_bytes[start] == hay_bytes.subrange(start, start + needle_bytes.len())[0]);
            is_char_boundary_start_end_of_seq(needle_bytes);
            is_char_boundary_iff_not_is_continuation_byte(needle_bytes, 0);
            is_char_boundary_iff_not_is_continuation_byte(hay_bytes, start);
            assert(is_char_boundary(hay_bytes, start));
            let head = hay_bytes.subrange(0, start);
            let tail = hay_bytes.subrange(start, hay_bytes.len() as int);
            valid_utf8_split(hay_bytes, start);
            decode_utf8_split(hay_bytes, start);
            assert(tail.subrange(0, needle_bytes.len() as int) =~= needle_bytes);
            lemma_prefix_ends_at_boundary(needle_bytes, tail);
            decode_utf8_split(tail, needle_bytes.len() as int);
            let before = decode_utf8(head);
            let after = decode_utf8(tail.subrange(needle_bytes.len() as int, tail.len() as int));
            assert(hay =~= before + (needle + after));
            let at = before.len() as int;
            assert(hay.subrange(at, at + needle.len()) =~= needle);
            assert(occurs_at(needle, hay, at));
        }
    }
}

} // verus!
