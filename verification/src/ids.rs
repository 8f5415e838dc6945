//! Fresh identifiers for staging and backup directories (uuid).
use vstd::prelude::*;

verus! {

/// A lower-case hexadecimal digit.
pub open spec fn is_lower_hex(c: char) -> bool {
    ('0' <= c <= '9') || ('a' <= c <= 'f')
}

/// An identifier as `uuid::Uuid::to_string` writes a UUID: 36 characters,
/// `-` at positions 8, 13, 18 and 23, lower-case hexadecimal digits
/// elsewhere.
pub open spec fn is_fresh_id(id: Seq<char>) -> bool {
    &&& id.len() == 36
    &&& forall|i: int|
        0 <= i < 36 ==> if i == 8 || i == 13 || i == 18 || i == 23 {
            #[trigger] id[i] == '-'
        } else {
            is_lower_hex(id[i])
        }
}

/// A fresh identifier is one path name: no `/`, and neither `.` nor `..`.
pub proof fn lemma_fresh_id_is_name(id: Seq<char>)
    requires
        is_fresh_id(id),
    ensures
        crate::paths::is_single_name(id),
        forall|i: int| 0 <= i < id.len() ==> #[trigger] id[i] != '/',
{
    assert forall|i: int| 0 <= i < id.len() implies #[trigger] id[i] != '/' by {
        if i == 8 || i == 13 || i == 18 || i == 23 {
        } else {
            assert(is_lower_hex(id[i]));
        }
    }
}

/// Calls `uuid::Uuid::new_v4` and formats the UUID with `to_string`, which
/// writes its 36-character hyphenated lower-case form. The value is random:
/// nothing more is stated of it.
#[verifier::external_body]
pub(crate) fn random_id() -> (r: String)
    ensures
        is_fresh_id(r@),
{
    uuid::Uuid::new_v4().to_string()
}

} // verus!
