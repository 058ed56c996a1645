//! An HTTP error answer: status code and message.

use vstd::prelude::*;

verus! {

pub const BAD_REQUEST: u16 = 400;
pub const NOT_FOUND: u16 = 404;
pub const UNSUPPORTED_MEDIA_TYPE: u16 = 415;
pub const INTERNAL_SERVER_ERROR: u16 = 500;
pub const BAD_GATEWAY: u16 = 502;
pub const SERVICE_UNAVAILABLE: u16 = 503;

/// An error answered to an HTTP request.
#[derive(Clone, Debug)]
pub struct HttpError {
    pub status: u16,
    pub message: String,
}

impl HttpError {
    pub fn new(status: u16, message: &str) -> (e: HttpError)
        ensures
            e.status == status,
            e.message@ == message@,
    {
        HttpError { status, message: String::from_str(message) }
    }
}

} // verus!
