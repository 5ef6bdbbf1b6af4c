//! HTTP status codes of failures.
use vstd::prelude::*;

verus! {

/// The status that a request is answered with which cannot be read or lowered.
pub const BAD_REQUEST: u16 = 400;

/// The status that a failure without a usable one is answered with.
pub const INTERNAL_SERVER_ERROR: u16 = 500;

/// What a request that cannot be served is answered.
#[derive(Debug, Clone, PartialEq)]
pub struct Failure {
    pub status: u16,
    pub message: String,
}

/// The status that a failure is answered with: the one it names where HTTP has such a
/// number, else the one of an internal error.
pub open spec fn answer_status(code: u16) -> u16 {
    if 100 <= code < 1000 {
        code
    } else {
        INTERNAL_SERVER_ERROR
    }
}

/// `StatusCode::from_u16` takes the numbers from 100 to 999 and refuses every other.
#[verifier::external_body]
fn status_code(code: u16) -> (r: Option<u16>)
    ensures
        r == if 100 <= code < 1000 {
            Some(code)
        } else {
            None
        },
{
    axum::http::StatusCode::from_u16(code).ok().map(|status| status.as_u16())
}

/// The status that a failure is answered with.
pub fn failure_status(code: u16) -> (r: u16)
    ensures
        r == answer_status(code),
{
    match status_code(code) {
        Some(status) => status,
        None => INTERNAL_SERVER_ERROR,
    }
}

/// A number that HTTP has as a status is answered as it is, every other as an internal
/// error.
pub proof fn law_http_statuses_are_kept(code: u16, r: u16)
    requires
        call_ensures(failure_status, (code,), r),
    ensures
        100 <= code <= 999 ==> r == code,
        code < 100 ==> r == 500,
        code > 999 ==> r == 500,
{
}

} // verus!
