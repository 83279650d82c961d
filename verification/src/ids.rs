//! Fresh identifiers.
use vstd::prelude::*;
use vstd::string::*;

#[allow(unused_imports)]
use crate::checkpoint::{run_id_char, safe_run_id};

verus! {

/// Whether a character is a lower-case hexadecimal digit.
pub open spec fn is_lower_hex(c: char) -> bool {
    ('0' <= c && c <= '9') || ('a' <= c && c <= 'f')
}

/// Whether a text has the form of a fresh identifier: lower-case hexadecimal digits
/// in groups of eight, four, four, four and twelve, parted by hyphens. The third group
/// starts with the version and the fourth with the variant of a random UUID.
pub open spec fn is_fresh_form(s: Seq<char>) -> bool {
    &&& s.len() == 36
    &&& forall|i: int|
        0 <= i < 36 ==> if i == 8 || i == 13 || i == 18 || i == 23 {
            #[trigger] s[i] == '-'
        } else {
            is_lower_hex(s[i])
        }
    &&& s[14] == '4'
    &&& s[19] == '8' || s[19] == '9' || s[19] == 'a' || s[19] == 'b'
}

/// Calls `uuid::Uuid::new_v4` and writes the value out with its `Display`, which is
/// the hyphenated lower-case form. The version and the variant are fixed. The other
/// digits are random: nothing more is claimed of them, and in particular not that two
/// calls differ.
#[verifier::external_body]
pub(crate) fn fresh_id() -> (s: String)
    ensures
        is_fresh_form(s@),
{
    uuid::Uuid::new_v4().to_string()
}

/// A fresh identifier is an opaque run id and holds no dot.
pub proof fn fresh_ids_are_safe(s: Seq<char>)
    requires
        is_fresh_form(s),
    ensures
        safe_run_id(s),
        forall|i: int| 0 <= i < s.len() ==> #[trigger] s[i] != '.',
{
    assert forall|i: int| 0 <= i < s.len() implies run_id_char(#[trigger] s[i]) && s[i] != '.' by {}
}

} // verus!
