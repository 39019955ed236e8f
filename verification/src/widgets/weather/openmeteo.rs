//! What the forecast service answers, and how the weather it reports is
//! kept.
use vstd::prelude::*;

verus! {

/// The error the service sends with a rejected request.
#[derive(Debug)]
pub struct ApiError {
    pub error: bool,
    pub reason: String,
}

/// The weather at one place, as the widget shows it.
#[derive(Debug)]
pub struct Meteo {
    pub code: u8,
    pub city: String,
    pub cur: String,
    pub max: String,
    pub min: String,
    pub cur_u: String,
    pub max_u: String,
    pub min_u: String,
}

/// How the reply of the service is read.
#[derive(Debug, Clone, Copy, PartialEq, Eq, Structural)]
pub enum ReplyKind {
    /// `200 OK`: the body is a forecast.
    Forecast,
    /// `400 Bad Request`: the body is an [ApiError].
    Rejected,
    /// Any other status, which is an error of its own.
    Unexpected(u16),
}

/// How to read a reply with this HTTP status code.
pub fn reply_kind(status: u16) -> (r: ReplyKind)
    ensures
        r == if status == 200 {
            ReplyKind::Forecast
        } else if status == 400 {
            ReplyKind::Rejected
        } else {
            ReplyKind::Unexpected(status)
        },
{
    match status {
        200 => ReplyKind::Forecast,
        400 => ReplyKind::Rejected,
        code => ReplyKind::Unexpected(code),
    }
}

} // verus!
