//! Display forms of identifiers and timestamps.

use crate::text::lemma_split_at_boundary;
use vstd::prelude::*;
use vstd::string::*;
use vstd::utf8::*;

verus! {

/// The text of the bytes of `s` from `from` up to `to`.
pub open spec fn byte_range(s: Seq<char>, from: int, to: int) -> Seq<char> {
    decode_utf8(encode_utf8(s).subrange(from, to))
}

/// The short form of an identifier: its first eight bytes and an ellipsis,
/// or all of it where it has no more than eight.
pub open spec fn shortened(uuid: Seq<char>) -> Seq<char> {
    if encode_utf8(uuid).len() > 8 {
        byte_range(uuid, 0, 8) + "..."@
    } else {
        uuid
    }
}

/// Whether an identifier can be shortened: it is cut between two
/// characters.
pub open spec fn can_shorten(uuid: Seq<char>) -> bool {
    encode_utf8(uuid).len() > 8 ==> is_char_boundary(encode_utf8(uuid), 8)
}

/// Whether an identifier can be shortened.
pub fn is_shortenable(uuid: &str) -> (yes: bool)
    ensures
        yes == can_shorten(uuid@),
{
    uuid.as_bytes().len() <= 8 || uuid.is_char_boundary(8)
}

/// Shorten UUID for display (first 8 characters).
pub fn shorten_uuid(uuid: &str) -> (short: String)
    requires
        can_shorten(uuid@),
    ensures
        short@ == shortened(uuid@),
{
    if uuid.as_bytes().len() > 8 {
        let (head, _tail) = uuid.split_at(8);
        proof {
            lemma_split_at_boundary(uuid@, 8);
            encode_utf8_decode_utf8(head@);
            assert(uuid.spec_bytes() == encode_utf8(uuid@));
            assert(head.spec_bytes() == encode_utf8(uuid@).subrange(0, 8));
            assert(head@ == byte_range(uuid@, 0, 8));
        }
        let mut short = String::from_str(head);
        short.append("...");
        assert(encode_utf8(uuid@).len() > 8);
        short
    } else {
        String::from_str(uuid)
    }
}

/// The display form of an ISO timestamp: its date and its time of day with
/// a space between them, or all of it where it is shorter than a date and
/// a time.
pub open spec fn display_time(timestamp: Seq<char>) -> Seq<char> {
    if encode_utf8(timestamp).len() >= 19 {
        byte_range(timestamp, 0, 10) + " "@ + byte_range(timestamp, 11, 19)
    } else {
        timestamp
    }
}

/// Whether a timestamp can be displayed: its date and its time of day are
/// cut between characters.
pub open spec fn can_display(timestamp: Seq<char>) -> bool {
    encode_utf8(timestamp).len() >= 19 ==> {
        &&& is_char_boundary(encode_utf8(timestamp), 10)
        &&& is_char_boundary(encode_utf8(timestamp), 11)
        &&& is_char_boundary(encode_utf8(timestamp), 19)
    }
}

/// Whether a timestamp can be displayed.
pub fn is_displayable(timestamp: &str) -> (yes: bool)
    ensures
        yes == can_display(timestamp@),
{
    timestamp.as_bytes().len() < 19 || (timestamp.is_char_boundary(10)
        && timestamp.is_char_boundary(11) && timestamp.is_char_boundary(19))
}

/// Format ISO timestamp for display (YYYY-MM-DD HH:MM:SS).
pub fn format_timestamp(timestamp: &str) -> (shown: String)
    requires
        can_display(timestamp@),
    ensures
        shown@ == display_time(timestamp@),
{
    if timestamp.as_bytes().len() >= 19 {
        let ghost bytes = encode_utf8(timestamp@);
        proof {
            lemma_split_at_boundary(timestamp@, 10);
        }
        let (date, rest) = timestamp.split_at(10);
        proof {
            encode_utf8_decode_utf8(date@);
            assert(date.spec_bytes() == bytes.subrange(0, 10));
            assert(date@ == byte_range(timestamp@, 0, 10));
            encode_utf8_valid_utf8(rest@);
            encode_utf8_valid_utf8(timestamp@);
            assert(rest.spec_bytes() == bytes.subrange(10, bytes.len() as int));
            is_char_boundary_iff_not_is_continuation_byte(bytes, 11);
            is_char_boundary_iff_not_is_continuation_byte(rest.spec_bytes(), 1);
        }
        let (_separator, tail) = rest.split_at(1);
        proof {
            encode_utf8_valid_utf8(tail@);
            assert(tail.spec_bytes() =~= bytes.subrange(11, bytes.len() as int));
            if bytes.len() > 19 {
                is_char_boundary_iff_not_is_continuation_byte(bytes, 19);
                is_char_boundary_iff_not_is_continuation_byte(tail.spec_bytes(), 8);
            } else {
                is_char_boundary_start_end_of_seq(tail.spec_bytes());
            }
        }
        let (time, _zone) = tail.split_at(8);
        proof {
            assert(time.spec_bytes() =~= bytes.subrange(11, 19));
            encode_utf8_decode_utf8(time@);
            assert(time@ == byte_range(timestamp@, 11, 19));
        }
        let mut shown = String::from_str(date);
        shown.append(" ");
        shown.append(time);
        assert(encode_utf8(timestamp@).len() >= 19);
        shown
    } else {
        String::from_str(timestamp)
    }
}

/// In a text of ASCII characters, bytes and characters are counted alike,
/// and every cut falls between two characters.
proof fn lemma_ascii_range(s: Seq<char>, from: int, to: int)
    requires
        is_ascii_chars(s),
        0 <= from <= to <= s.len(),
    ensures
        encode_utf8(s).len() == s.len(),
        byte_range(s, from, to) == s.subrange(from, to),
        is_char_boundary(encode_utf8(s), from),
{
    let bytes = encode_utf8(s);
    let part = s.subrange(from, to);
    is_ascii_chars_encode_utf8(s);
    assert(is_ascii_chars(part));
    is_ascii_chars_encode_utf8(part);
    assert(encode_utf8(part) =~= bytes.subrange(from, to));
    encode_utf8_decode_utf8(part);
    encode_utf8_valid_utf8(s);
    if from < s.len() {
        is_char_boundary_iff_not_is_continuation_byte(bytes, from);
        is_ascii_chars_nat_bound(s);
        let byte = bytes[from];
        assert(byte == s[from] as u8);
        assert(byte < 128);
        assert(!is_continuation_byte(byte)) by (bit_vector)
            requires
                byte < 128,
        ;
    } else {
        is_char_boundary_start_end_of_seq(bytes);
    }
}

/// An identifier of ASCII characters can always be shortened, and its
/// short form is its first eight characters and an ellipsis.
pub proof fn lemma_shortened_ascii(uuid: Seq<char>)
    requires
        is_ascii_chars(uuid),
    ensures
        can_shorten(uuid),
        shortened(uuid) == if uuid.len() > 8 {
            uuid.subrange(0, 8) + "..."@
        } else {
            uuid
        },
{
    lemma_ascii_range(uuid, 0, 0);
    if uuid.len() > 8 {
        lemma_ascii_range(uuid, 0, 8);
        lemma_ascii_range(uuid, 8, 8);
    }
}

/// A timestamp of ASCII characters can always be displayed, and what is
/// shown is its first ten characters, a space, and its twelfth to
/// nineteenth character.
pub proof fn lemma_display_time_ascii(timestamp: Seq<char>)
    requires
        is_ascii_chars(timestamp),
    ensures
        can_display(timestamp),
        display_time(timestamp) == if timestamp.len() >= 19 {
            timestamp.subrange(0, 10) + " "@ + timestamp.subrange(11, 19)
        } else {
            timestamp
        },
{
    lemma_ascii_range(timestamp, 0, 0);
    if timestamp.len() >= 19 {
        lemma_ascii_range(timestamp, 0, 10);
        lemma_ascii_range(timestamp, 10, 10);
        lemma_ascii_range(timestamp, 11, 19);
        lemma_ascii_range(timestamp, 19, 19);
    }
}

} // verus!
