//! Identifiers and secrets: random version-4 UUIDs in their usual text form.

use vstd::prelude::*;
use vstd::utf8::{encode_utf8, is_ascii_chars, is_ascii_chars_encode_utf8};

verus! {

/// A decimal digit or one of `a` to `f`.
pub open spec fn is_hex_digit(c: char) -> bool {
    ('0' <= c <= '9') || ('a' <= c <= 'f')
}

/// A hyphen stands at this position of a token.
pub open spec fn is_hyphen_position(i: int) -> bool {
    i == 8 || i == 13 || i == 18 || i == 23
}

/// The text form of a version-4 UUID: 36 characters in groups of 8, 4, 4, 4
/// and 12 lower-case hexadecimal digits with hyphens between the groups, the
/// third group starting with `4` and the fourth with `8`, `9`, `a` or `b`.
pub open spec fn is_token(text: Seq<char>) -> bool {
    &&& text.len() == 36
    &&& forall|i: int|
        0 <= i < 36 ==> if is_hyphen_position(i) {
            #[trigger] text[i] == '-'
        } else {
            is_hex_digit(text[i])
        }
    &&& text[14] == '4'
    &&& (text[19] == '8' || text[19] == '9' || text[19] == 'a' || text[19] == 'b')
}

/// A token is not empty, and its UTF-8 form has one byte per character.
pub proof fn lemma_token_bytes(text: Seq<char>)
    requires
        is_token(text),
    ensures
        text.len() > 0,
        encode_utf8(text).len() == 36,
{
    assert forall|i: int| 0 <= i < text.len() implies '\0' <= #[trigger] text[i] <= '\u{7f}' by {
        if !is_hyphen_position(i) {
            assert(is_hex_digit(text[i]));
        }
    }
    assert(is_ascii_chars(text));
    is_ascii_chars_encode_utf8(text);
}

/// `uuid::Uuid::new_v4`, rendered as text by the UUID's `Display`.
///
/// Trusted: the UUID is drawn from the operating system's random source with
/// the version and variant bits set, and `Display` writes it in the
/// hyphenated lower-case form. Which token comes back is not determined;
/// the contract states only the shape that every outcome has.
#[verifier::external_body]
pub(crate) fn uuid_v4_text() -> (token: String)
    ensures
        is_token(token@),
{
    uuid::Uuid::new_v4().to_string()
}

} // verus!
