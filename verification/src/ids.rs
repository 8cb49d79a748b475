//! Allocation of fresh identifiers.
//!
//! Attachment ids, server ids, user ids, session tokens and password salts
//! are all freshly drawn 128-bit random values in their hyphenated text form.

use vstd::prelude::*;
use vstd::utf8::encode_utf8;

verus! {

/// True of every character that can occur in a hyphenated identifier:
/// a lowercase hexadecimal digit or a hyphen.
pub open spec fn id_char(c: char) -> bool {
    ('0' <= c && c <= '9') || ('a' <= c && c <= 'f') || c == '-'
}

/// True of the text of every freshly drawn identifier.
pub open spec fn id_text(s: Seq<char>) -> bool {
    &&& s.len() == 36
    &&& forall|i: int| 0 <= i < s.len() ==> id_char(#[trigger] s[i])
}

/// Draws a fresh identifier from a cryptographically secure random source.
///
/// Relies on `uuid::Uuid::new_v4` and its `Display` impl: the text is the
/// hyphenated lowercase form, 36 ASCII characters, each a lowercase hex
/// digit or a hyphen, so its UTF-8 encoding is 36 bytes long.  The value is
/// random; nothing is promised about which identifier comes back.
#[verifier::external_body]
pub(crate) fn fresh_id() -> (r: String)
    ensures
        id_text(r@),
        encode_utf8(r@).len() == 36,
{
    uuid::Uuid::new_v4().to_string()
}

} // verus!
