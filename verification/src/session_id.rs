//! Session ids: random UUIDs in hyphenated form.

use vstd::prelude::*;

verus! {

pub open spec fn is_low_hex(c: char) -> bool {
    '0' <= c <= '9' || 'a' <= c <= 'f'
}

/// The hyphenated, lower-case form of a random (version 4) UUID.
pub open spec fn is_session_id(s: Seq<char>) -> bool {
    &&& s.len() == 36
    &&& forall|i: int|
        #![trigger s[i]]
        0 <= i < 36 ==> if i == 8 || i == 13 || i == 18 || i == 23 {
            s[i] == '-'
        } else {
            is_low_hex(s[i])
        }
    &&& s[14] == '4'
    &&& s[19] == '8' || s[19] == '9' || s[19] == 'a' || s[19] == 'b'
}

/// `uuid::Uuid::new_v4` and the UUID's text: 36 characters, groups of lower-case
/// hexadecimal digits with hyphens between them, of version 4 and the standard
/// variant. Which digits come is left to chance.
#[verifier::external_body]
pub(crate) fn new_session_id() -> (r: String)
    ensures
        is_session_id(r@),
{
    uuid::Uuid::new_v4().to_string()
}

} // verus!
