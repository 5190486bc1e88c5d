//! Status codes the server can answer with, and the error kinds raised on
//! the way to one.
use vstd::prelude::*;

verus! {

use crate::text::ascii_of;

/// The five statuses a response can carry.
#[derive(Clone, Copy, PartialEq, Eq, Structural, Debug)]
pub enum StatusCode {
    OK,
    BadRequest,
    NotFound,
    InternalServerError,
    MethodNotAllowed,
}

/// Whether a numeric code is one the server produces.
pub open spec fn valid_status(code: u16) -> bool {
    code == 200 || code == 400 || code == 404 || code == 405 || code == 500
}

/// The fixed reason phrase of a status code.
pub open spec fn spec_reason(code: u16) -> Seq<u8> {
    if code == 200 {
        ascii_of("OK")
    } else if code == 400 {
        ascii_of("Bad Request")
    } else if code == 404 {
        ascii_of("Not Found")
    } else if code == 405 {
        ascii_of("Method Not Allowed")
    } else {
        ascii_of("Internal Server Error")
    }
}

impl StatusCode {
    /// The numeric code.
    pub fn as_u16(&self) -> (r: u16)
        ensures
            self is OK ==> r == 200,
            self is BadRequest ==> r == 400,
            self is NotFound ==> r == 404,
            self is InternalServerError ==> r == 500,
            self is MethodNotAllowed ==> r == 405,
            valid_status(r),
    {
        match self {
            StatusCode::OK => 200,
            StatusCode::BadRequest => 400,
            StatusCode::NotFound => 404,
            StatusCode::InternalServerError => 500,
            StatusCode::MethodNotAllowed => 405,
        }
    }

    /// The reason phrase.
    pub fn as_str(&self) -> (r: &'static str)
        ensures
            ascii_of(r) == spec_reason(self.as_u16_spec()),
    {
        match self {
            StatusCode::OK => "OK",
            StatusCode::BadRequest => "Bad Request",
            StatusCode::NotFound => "Not Found",
            StatusCode::InternalServerError => "Internal Server Error",
            StatusCode::MethodNotAllowed => "Method Not Allowed",
        }
    }

    /// The numeric code, for specifications.
    pub open spec fn as_u16_spec(&self) -> u16 {
        match self {
            StatusCode::OK => 200,
            StatusCode::BadRequest => 400,
            StatusCode::NotFound => 404,
            StatusCode::InternalServerError => 500,
            StatusCode::MethodNotAllowed => 405,
        }
    }
}

/// The reason phrase of a status code, as bytes.
pub fn reason_vec(code: u16) -> (r: Vec<u8>)
    requires
        valid_status(code),
    ensures
        r@ == spec_reason(code),
{
    proof {
        reveal_strlit("OK");
        reveal_strlit("Bad Request");
        reveal_strlit("Not Found");
        reveal_strlit("Method Not Allowed");
        reveal_strlit("Internal Server Error");
    }
    if code == 200 {
        crate::text::lit_vec("OK")
    } else if code == 400 {
        crate::text::lit_vec("Bad Request")
    } else if code == 404 {
        crate::text::lit_vec("Not Found")
    } else if code == 405 {
        crate::text::lit_vec("Method Not Allowed")
    } else {
        crate::text::lit_vec("Internal Server Error")
    }
}

/// Errors raised while carrying a request to a response.
#[derive(Clone, Copy, PartialEq, Eq, Structural, Debug)]
pub enum ServerError {
    ParseIntegerError,
    ParseUtf8Error,
    StreamError,
    BufferHeaderError,
    MissingHeaderError,
    CorsError,
}

/// The response classes a test can observe.
#[derive(Clone, Copy, PartialEq, Eq, Structural, Debug)]
pub enum TestStatusCode {
    DirResponse,
    OK,
    NotFound,
    BadRequest,
    MethodNotAllowed,
    InternalServerError,
    CORSError,
}

} // verus!
