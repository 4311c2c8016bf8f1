//! The clock of the service and the lifetimes of its tokens.

use crate::error::{AppError, AppErrorView};
use std::time::{Duration, SystemTime, SystemTimeError};
use vstd::prelude::*;

verus! {

/// Default lifetime of an access token in seconds: 15 minutes.
pub const ACCESS_TOKEN_TTL_SECONDS: u64 = 15 * 60;

/// Default lifetime of a refresh token in seconds: 7 days.
pub const REFRESH_TOKEN_TTL_SECONDS: u64 = 7 * 24 * 60 * 60;

/// `std::time::SystemTime`: a reading of the system clock.
#[verifier::external_type_specification]
#[verifier::external_body]
pub struct ExSystemTime(SystemTime);

/// `std::time::SystemTimeError`: the second time was later than the first.
#[verifier::external_type_specification]
#[verifier::external_body]
pub struct ExSystemTimeError(SystemTimeError);

/// `SystemTime::now`: the current reading of the system clock.
#[verifier::external_body]
fn now() -> SystemTime {
    SystemTime::now()
}

/// `SystemTime::duration_since`, with `UNIX_EPOCH` as the earlier time: the time from the
/// epoch to `time`, or an error if `time` lies before the epoch.
#[verifier::external_body]
fn since_epoch(time: &SystemTime) -> Result<Duration, SystemTimeError> {
    time.duration_since(SystemTime::UNIX_EPOCH)
}

/// `Duration::as_secs`: the whole seconds of a duration.
#[verifier::external_body]
fn whole_seconds(duration: &Duration) -> u64 {
    duration.as_secs()
}

/// The text of a `SystemTimeError`.
#[verifier::external_body]
fn time_error_text(error: &SystemTimeError) -> String {
    format!("{}", error)
}

/// The seconds since the epoch as a signed number; the error, if the clock gave one, as an
/// authentication error that says so.
pub fn epoch_seconds(elapsed: Result<u64, String>) -> (r: Result<i64, AppError>)
    ensures
        match elapsed {
            Ok(seconds) => r == Ok::<i64, AppError>(seconds as i64),
            Err(text) => r is Err && r->Err_0@ == AppErrorView::Auth(
                "invalid system time: "@ + text@,
            ),
        },
{
    match elapsed {
        Ok(seconds) => Ok(seconds as i64),
        Err(text) => Err(
            AppError::Auth(String::from_str("invalid system time: ").concat(text.as_str())),
        ),
    }
}

/// Current UNIX epoch seconds, read from the system clock.
pub fn current_epoch_seconds() -> (r: Result<i64, AppError>)
    ensures
        r is Err ==> r->Err_0 is Auth,
{
    let time = now();
    let elapsed = match since_epoch(&time) {
        Ok(duration) => Ok(whole_seconds(&duration)),
        Err(e) => Err(time_error_text(&e)),
    };
    epoch_seconds(elapsed)
}

} // verus!
