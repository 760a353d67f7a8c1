//! The calls this library makes into other crates, each with what is claimed
//! of it.
use vstd::prelude::*;
use crate::text::{escape_safe, escape_text, is_lower_hex_digit};
use md5::Digest;

verus! {

/// `html_escape::encode_safe`: per the crate's source, it replaces the bytes
/// `&`, `<`, `>`, `"`, `'` and `/` by their entities and copies every other byte,
/// which, these being ASCII, is the character map `escape_safe`.
#[verifier::external_body]
pub(crate) fn encode_safe(text: &str) -> (escaped: String)
    ensures
        escaped@ == escape_safe(text@),
{
    html_escape::encode_safe(text).into_owned()
}

/// `html_escape::encode_text`: per the crate's source, it replaces the bytes
/// `&`, `<` and `>` by their entities and copies every other byte, which is the
/// character map `escape_text`.
#[verifier::external_body]
pub(crate) fn encode_text(text: &str) -> (escaped: String)
    ensures
        escaped@ == escape_text(text@),
{
    html_escape::encode_text(text).into_owned()
}

/// The MD5 digest of the UTF-8 encoding of a text.
pub uninterp spec fn md5_digest_of(text: Seq<char>) -> Seq<u8>;

/// `md5::Md5` (the `md-5` crate) fed the UTF-8 bytes of `text` and finalised:
/// its digest, named `md5_digest_of`, is 16 bytes long.
#[verifier::external_body]
pub(crate) fn md5_digest(text: &str) -> (digest: Vec<u8>)
    ensures
        digest@ == md5_digest_of(text@),
        digest@.len() == 16,
{
    let mut hasher = md5::Md5::new();
    hasher.update(text.as_bytes());
    hasher.finalize().to_vec()
}

/// A UUID of version 4 written as `uuid` writes it: 36 characters, lower-case
/// hexadecimal digits in groups of 8, 4, 4, 4 and 12 joined by `-`, the version
/// digit `4` first in the third group, and a variant digit among `8`, `9`, `a`,
/// `b` first in the fourth.
pub open spec fn is_uuid_v4_text(u: Seq<char>) -> bool {
    &&& u.len() == 36
    &&& forall|i: int|
        0 <= i < 36 ==> (if i == 8 || i == 13 || i == 18 || i == 23 {
            #[trigger] u[i] == '-'
        } else {
            is_lower_hex_digit(u[i])
        })
    &&& u[14] == '4'
    &&& (u[19] == '8' || u[19] == '9' || u[19] == 'a' || u[19] == 'b')
}

/// `uuid::Uuid::new_v4` written out with `to_string`: a random UUID. Per the
/// crate's source, `new_v4` forces the version bits to 4 and the variant bits
/// to `10`, and `Display` writes the hyphenated lower-case form; which UUID
/// comes out is not claimed.
#[verifier::external_body]
pub(crate) fn random_uuid_text() -> (text: String)
    ensures
        is_uuid_v4_text(text@),
{
    uuid::Uuid::new_v4().to_string()
}

/// Whether `chrono` can represent a number of seconds since the Unix epoch as
/// a UTC date: the day they fall on lies between January 1 of 262144 BC and
/// December 31 of 262142, `chrono`'s first and last dates, that is between days
/// -95746129 and 95745399 counted from the first day of the common era, where
/// the epoch is day 719163.
pub open spec fn utc_timestamp_representable(secs: i64) -> bool {
    -8_334_601_228_800 <= secs && secs <= 8_210_266_876_799
}

/// `chrono::DateTime::from_timestamp(secs, 0)` tested for `Some`: per the
/// crate's source it is `Some` exactly when the day number
/// `secs.div_euclid(86400) + 719163` names a date between `NaiveDate::MIN` and
/// `NaiveDate::MAX`, which is `utc_timestamp_representable`.
#[verifier::external_body]
pub(crate) fn utc_timestamp_is_representable(secs: i64) -> (r: bool)
    ensures
        r == utc_timestamp_representable(secs),
{
    chrono::DateTime::from_timestamp(secs, 0).is_some()
}

/// `chrono::Utc::now` as seconds since the Unix epoch: the time of the clock.
/// Per the crate's source it measures the time since the epoch as an unsigned
/// duration (and panics on a clock set before 1970), so it is never negative;
/// which time it is, is not claimed.
#[verifier::external_body]
pub(crate) fn now_timestamp() -> (secs: i64)
    ensures
        secs >= 0,
{
    chrono::Utc::now().timestamp()
}


} // verus!
