//! What a new record gets from outside the ledger: an id and a time stamp.

use vstd::prelude::*;

verus! {

/// `c` is one of `0`-`9`, `a`-`f`.
pub open spec fn is_lower_hex(c: char) -> bool {
    ('0' <= c && c <= '9') || ('a' <= c && c <= 'f')
}

/// `s` has the shape of a random (version 4) UUID written in lower-case
/// hexadecimal digits in groups of 8, 4, 4, 4 and 12, with hyphens between.
pub open spec fn is_random_uuid_text(s: Seq<char>) -> bool {
    &&& s.len() == 36
    &&& forall|i: int|
        0 <= i < 36 ==> if i == 8 || i == 13 || i == 18 || i == 23 {
            #[trigger] s[i] == '-'
        } else {
            is_lower_hex(s[i])
        }
    &&& s[14] == '4'
    &&& (s[19] == '8' || s[19] == '9' || s[19] == 'a' || s[19] == 'b')
}

/// A random UUID as text, from `uuid::Uuid::new_v4` and the `Display` of
/// `Uuid`.
///
/// Claimed of every outcome: the text is the hyphenated lower-case form, the
/// version digit is 4 and the variant digit is one of 8, 9, a, b. Which of
/// those texts comes back is left open; in particular nothing is claimed
/// about two calls giving different texts. The call panics where the
/// operating system hands out no random bytes.
#[verifier::external_body]
pub(crate) fn random_id() -> (id: String)
    ensures
        is_random_uuid_text(id@),
{
    uuid::Uuid::new_v4().to_string()
}

/// The seconds since the Unix epoch on the system clock, from
/// `chrono::Utc::now` and `DateTime::timestamp`.
///
/// Nothing is claimed of the value. The call panics where the clock stands
/// before the epoch.
#[verifier::external_body]
pub(crate) fn unix_seconds() -> (seconds: u64) {
    chrono::Utc::now().timestamp() as u64
}

} // verus!
