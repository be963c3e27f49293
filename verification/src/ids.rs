//! Fresh identifiers, from the uuid crate.

use vstd::prelude::*;

verus! {

/// The text of a version-4 UUID in hyphenated form: 36 characters,
/// hyphens at positions 8, 13, 18 and 23, lowercase hexadecimal digits
/// elsewhere, the version digit `4` at position 14 and a variant digit
/// `8`, `9`, `a` or `b` at position 19.
pub open spec fn uuid_v4_text(s: Seq<char>) -> bool {
    &&& s.len() == 36
    &&& forall|i: int|
        0 <= i < 36 ==> if i == 8 || i == 13 || i == 18 || i == 23 {
            s[i] == '-'
        } else {
            ('0' <= #[trigger] s[i] <= '9') || ('a' <= s[i] <= 'f')
        }
    &&& s[14] == '4'
    &&& (s[19] == '8' || s[19] == '9' || s[19] == 'a' || s[19] == 'b')
}

/// A random version-4 UUID as text: `uuid::Uuid::new_v4().to_string()`.
/// The text is random; the uuid crate fixes the version and variant bits
/// and writes it in hyphenated lowercase form, which is all that is claimed.
#[verifier::external_body]
pub(crate) fn new_uuid() -> (s: String)
    ensures
        uuid_v4_text(s@),
{
    uuid::Uuid::new_v4().to_string()
}

} // verus!
