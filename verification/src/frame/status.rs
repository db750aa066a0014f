//! The outcome of a request.

use vstd::prelude::*;

verus! {

/// How a request went.
#[derive(Debug, Clone, Copy, PartialEq, Eq, Structural)]
pub enum StatusCode {
    Success,
    BadRequest,
    Unauthenticated,
    PermissionDenied,
    NotFound,
    SessionExpired,
    RateLimited,
    InternalError,
}

/// The byte that stands for a status.
pub open spec fn status_code(s: StatusCode) -> u8 {
    match s {
        StatusCode::Success => 0x00,
        StatusCode::BadRequest => 0x01,
        StatusCode::Unauthenticated => 0x02,
        StatusCode::PermissionDenied => 0x03,
        StatusCode::NotFound => 0x04,
        StatusCode::SessionExpired => 0x05,
        StatusCode::RateLimited => 0x06,
        StatusCode::InternalError => 0x07,
    }
}

/// The status that a byte stands for, if it stands for one.
pub open spec fn status_from(b: u8) -> Option<StatusCode> {
    if b == 0x00 {
        Some(StatusCode::Success)
    } else if b == 0x01 {
        Some(StatusCode::BadRequest)
    } else if b == 0x02 {
        Some(StatusCode::Unauthenticated)
    } else if b == 0x03 {
        Some(StatusCode::PermissionDenied)
    } else if b == 0x04 {
        Some(StatusCode::NotFound)
    } else if b == 0x05 {
        Some(StatusCode::SessionExpired)
    } else if b == 0x06 {
        Some(StatusCode::RateLimited)
    } else if b == 0x07 {
        Some(StatusCode::InternalError)
    } else {
        None
    }
}

/// A byte stands for a status exactly when it is that status's code.
pub proof fn law_status_codes(b: u8, s: StatusCode)
    ensures
        status_from(b) == Some(s) <==> status_code(s) == b,
{
}

/// The statuses are numbered from 0 to 7, and no other byte stands for one.
pub proof fn law_status_numbers(b: u8)
    ensures
        status_from(0) == Some(StatusCode::Success),
        status_from(1) == Some(StatusCode::BadRequest),
        status_from(2) == Some(StatusCode::Unauthenticated),
        status_from(3) == Some(StatusCode::PermissionDenied),
        status_from(4) == Some(StatusCode::NotFound),
        status_from(5) == Some(StatusCode::SessionExpired),
        status_from(6) == Some(StatusCode::RateLimited),
        status_from(7) == Some(StatusCode::InternalError),
        b > 7 ==> status_from(b) is None,
{
}

impl StatusCode {
    /// The status that a byte stands for.
    pub fn from_u8(b: u8) -> (r: Option<StatusCode>)
        ensures
            r == status_from(b),
    {
        match b {
            0x00 => Some(StatusCode::Success),
            0x01 => Some(StatusCode::BadRequest),
            0x02 => Some(StatusCode::Unauthenticated),
            0x03 => Some(StatusCode::PermissionDenied),
            0x04 => Some(StatusCode::NotFound),
            0x05 => Some(StatusCode::SessionExpired),
            0x06 => Some(StatusCode::RateLimited),
            0x07 => Some(StatusCode::InternalError),
            _ => None,
        }
    }

    /// The byte that stands for the status.
    pub fn to_u8(self) -> (b: u8)
        ensures
            b == status_code(self),
    {
        match self {
            StatusCode::Success => 0x00,
            StatusCode::BadRequest => 0x01,
            StatusCode::Unauthenticated => 0x02,
            StatusCode::PermissionDenied => 0x03,
            StatusCode::NotFound => 0x04,
            StatusCode::SessionExpired => 0x05,
            StatusCode::RateLimited => 0x06,
            StatusCode::InternalError => 0x07,
        }
    }
}

} // verus!
