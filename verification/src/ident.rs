//! Identifiers of scene objects.

use vstd::prelude::*;

verus! {

/// A lower-case hexadecimal digit.
pub open spec fn is_hex_digit(c: char) -> bool {
    ('0' <= c && c <= '9') || ('a' <= c && c <= 'f')
}

/// The shape of a random (version 4) UUID in its hyphenated form: 36
/// characters, hyphens after the groups of 8, 4, 4 and 4 digits, lower-case
/// hexadecimal digits elsewhere, the version digit `4` and a variant digit of
/// `8`, `9`, `a` or `b`.
pub open spec fn is_object_id(id: Seq<char>) -> bool {
    &&& id.len() == 36
    &&& forall|i: int|
        0 <= i < 36 ==> if i == 8 || i == 13 || i == 18 || i == 23 {
            #[trigger] id[i] == '-'
        } else {
            is_hex_digit(id[i])
        }
    &&& id[14] == '4'
    &&& (id[19] == '8' || id[19] == '9' || id[19] == 'a' || id[19] == 'b')
}

/// Draws a fresh identifier: `uuid::Uuid::new_v4`, formatted by
/// `Uuid::to_hyphenated` and its `to_string`.
///
/// Trusted: the result has the shape of a hyphenated version 4 UUID. Which
/// digits it holds is left open, since they are random. The call panics if
/// the operating system hands out no random bytes.
#[verifier::external_body]
pub(crate) fn fresh_id() -> (id: String)
    ensures
        is_object_id(id@),
{
    uuid::Uuid::new_v4().to_hyphenated().to_string()
}

} // verus!
