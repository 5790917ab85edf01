//! Fresh identifiers and clock readings.
//!
//! Neither can be computed from the pipeline's inputs: an identifier is drawn
//! at random and the time is read from the machine. They are taken here, and
//! everything that is done with them is stated for every value they may have.

use vstd::prelude::*;

verus! {

/// Whether `c` is a decimal digit or a letter from `a` to `f`.
pub open spec fn is_lower_hex(c: char) -> bool {
    ('0' <= c && c <= '9') || ('a' <= c && c <= 'f')
}

/// Whether `s` has the shape of a version 4 UUID in its hyphenated form:
/// 36 characters, hyphens at 8, 13, 18 and 23, the digit `4` at 14 and lower
/// case hexadecimal digits elsewhere.
pub open spec fn is_uuid_text(s: Seq<char>) -> bool {
    &&& s.len() == 36
    &&& s[14] == '4'
    &&& forall|i: int|
        0 <= i < 36 ==> if i == 8 || i == 13 || i == 18 || i == 23 {
            #[trigger] s[i] == '-'
        } else {
            is_lower_hex(s[i])
        }
}

/// A fresh random identifier, from `uuid::Uuid::new_v4` and the `Display` of
/// the UUID it returns.
///
/// Claimed: the text is the hyphenated lower case form of a version 4 UUID.
/// Nothing is claimed of the random digits. The call draws from the operating
/// system's random source and does not return where that source fails.
#[verifier::external_body]
pub(crate) fn fresh_id() -> (id: String)
    ensures
        is_uuid_text(id@),
{
    uuid::Uuid::new_v4().to_string()
}

/// The time in whole seconds since the Unix epoch, from `chrono::Utc::now`
/// and `DateTime::timestamp`.
///
/// Nothing is claimed of the reading. The call does not return where the
/// machine's clock stands before the epoch.
#[verifier::external_body]
pub(crate) fn unix_seconds() -> i64 {
    chrono::Utc::now().timestamp()
}

/// The time in whole milliseconds since the Unix epoch, from
/// `chrono::Utc::now` and `DateTime::timestamp_millis`.
///
/// Nothing is claimed of the reading. The call does not return where the
/// machine's clock stands before the epoch.
#[verifier::external_body]
pub(crate) fn unix_millis() -> i64 {
    chrono::Utc::now().timestamp_millis()
}

} // verus!
