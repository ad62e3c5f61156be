//! Choosing the status line of a problem response.
use vstd::prelude::*;

verus! {

/// The status line used when the requested one is unusable.
pub const INTERNAL_SERVER_ERROR: u16 = 500;

/// Whether `code` lies in the range of status codes that HTTP defines (100 to 599).
pub open spec fn is_http_status(code: u16) -> bool {
    100 <= code <= 599
}

/// The status line that a problem with body field `status` is sent with.
pub open spec fn status_line(status: u16) -> u16 {
    if is_http_status(status) {
        status
    } else {
        INTERNAL_SERVER_ERROR
    }
}

/// Relies on `http::StatusCode::from_u16`, which accepts exactly the codes 100 to 999.
#[verifier::external_body]
fn accepted_by_http(code: u16) -> (r: bool)
    ensures
        r == (100 <= code <= 999),
{
    http::StatusCode::from_u16(code).is_ok()
}

/// Resolves the status line for a problem whose body carries `status`: the code itself
/// when it is a status code in 100 to 599, else 500.
pub fn resolve_status(status: u16) -> (r: u16)
    ensures
        r == status_line(status),
        100 <= r <= 599,
{
    if status <= 599 && accepted_by_http(status) {
        status
    } else {
        INTERNAL_SERVER_ERROR
    }
}

} // verus!
