use vstd::prelude::*;
use argon2::{PasswordHasher, PasswordVerifier};
use chrono::Datelike;
use crate::model::Timestamp;

verus! {

/// Whether `password` matches the stored argon2 hash string `hash`.
pub uninterp spec fn password_verifies(password: Seq<char>, hash: Seq<char>) -> bool;

/// Relies on argon2's `PasswordHasher::hash_password` (default parameters, a
/// fresh salt from `OsRng`), serialized as a PHC string: as argon2's own
/// documentation shows, the password verifies against it. The salt is random,
/// so nothing else is promised; `None` where hashing fails.
#[verifier::external_body]
pub(crate) fn hash_password(password: &String) -> (r: Option<String>)
    ensures
        r matches Some(h) ==> password_verifies(password@, h@),
{
    let salt = argon2::password_hash::SaltString::generate(&mut argon2::password_hash::rand_core::OsRng);
    match argon2::Argon2::default().hash_password(password.as_bytes(), &salt) {
        Ok(h) => Some(h.to_string()),
        Err(_) => None,
    }
}

/// Relies on argon2's `PasswordVerifier::verify_password` on the hash string
/// parsed by `PasswordHash::new`: the answer depends on the password and the
/// stored string alone. A string that does not parse verifies nothing.
#[verifier::external_body]
pub(crate) fn verify_password(password: &String, hash: &String) -> (b: bool)
    ensures
        b == password_verifies(password@, hash@),
{
    match argon2::PasswordHash::new(hash.as_str()) {
        Ok(parsed) => argon2::Argon2::default().verify_password(password.as_bytes(), &parsed).is_ok(),
        Err(_) => false,
    }
}

/// Relies on uuid's `Uuid::new_v4`, as hyphenated text. The id is random:
/// nothing is promised of it.
#[verifier::external_body]
fn new_id() -> String {
    uuid::Uuid::new_v4().to_string()
}

/// Relies on chrono's `Utc::now`, in whole seconds since the Unix epoch. The
/// clock is the machine's: nothing is promised of it.
#[verifier::external_body]
fn now_seconds() -> Timestamp {
    chrono::Utc::now().timestamp()
}

/// The UTC calendar year and month of `now`.
pub uninterp spec fn utc_year_month(now: Timestamp) -> Option<(i32, u32)>;

/// The first second (UTC) of month `month` of year `year`.
pub uninterp spec fn utc_first_of_month(year: i32, month: u32) -> Option<Timestamp>;

/// Relies on chrono's `DateTime::from_timestamp` (`now` as a UTC instant) and
/// its `Datelike::year` and `Datelike::month` (numbered from 1 to 12);
/// `None` where chrono cannot represent the instant.
#[verifier::external_body]
pub(crate) fn year_month(now: Timestamp) -> (r: Option<(i32, u32)>)
    ensures
        r == utc_year_month(now),
        r matches Some(ym) ==> 1 <= ym.1 <= 12,
{
    let t = chrono::DateTime::from_timestamp(now, 0)?;
    Some((t.year(), t.month()))
}

/// Relies on chrono's `NaiveDate::from_ymd_opt(year, month, 1)` at midnight
/// (`and_hms_opt(0, 0, 0)`) read as UTC; `None` where chrono has no such date.
#[verifier::external_body]
pub(crate) fn first_of_month(year: i32, month: u32) -> (r: Option<Timestamp>)
    ensures
        r == utc_first_of_month(year, month),
{
    let d = chrono::NaiveDate::from_ymd_opt(year, month, 1)?;
    Some(d.and_hms_opt(0, 0, 0)?.and_utc().timestamp())
}

/// The time and the fresh ids that one request may need.
#[derive(Clone, Debug)]
pub struct Fresh {
    pub now: Timestamp,
    pub id: String,
    pub spare_id: String,
}

/// Reads the clock and draws two random ids.
pub fn fresh() -> (r: Fresh) {
    Fresh { now: now_seconds(), id: new_id(), spare_id: new_id() }
}

} // verus!
