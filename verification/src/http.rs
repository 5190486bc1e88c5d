//! The HTTP protocol versions the server can answer with, and the request
//! methods it knows about.
use vstd::prelude::*;

verus! {

use crate::text::ascii_of;
use crate::text::lit_vec;

/// Which HTTP protocol label responses carry. There is no negotiation:
/// the configuration picks one.
#[derive(Clone, Copy, PartialEq, Eq, Structural)]
pub enum HttpProtocolVersion {
    OneDotOne,
    Two,
}

/// The protocol token of a response status line.
pub open spec fn spec_protocol(v: HttpProtocolVersion) -> Seq<u8> {
    if v is OneDotOne {
        ascii_of("HTTP/1.1")
    } else {
        ascii_of("HTTP/2")
    }
}

impl HttpProtocolVersion {
    /// The protocol token as text.
    pub fn as_str(&self) -> (r: &'static str)
        ensures
            ascii_of(r) == spec_protocol(*self),
    {
        match self {
            HttpProtocolVersion::OneDotOne => "HTTP/1.1",
            HttpProtocolVersion::Two => "HTTP/2",
        }
    }

    /// The protocol token as bytes.
    pub fn protocol_bytes(&self) -> (r: Vec<u8>)
        ensures
            r@ == spec_protocol(*self),
    {
        match self {
            HttpProtocolVersion::OneDotOne => {
                proof {
                    reveal_strlit("HTTP/1.1");
                }
                lit_vec("HTTP/1.1")
            },
            HttpProtocolVersion::Two => {
                proof {
                    reveal_strlit("HTTP/2");
                }
                lit_vec("HTTP/2")
            },
        }
    }
}

/// The request methods the access policy can name.
#[derive(Clone, Copy, PartialEq, Eq, Structural, Debug, Hash)]
pub enum Method {
    GET,
    HEAD,
    OPTIONS,
}

impl Method {
    /// The method token as text.
    pub fn as_str(&self) -> (r: &'static str)
        ensures
            self is GET ==> r@ == "GET"@,
            self is HEAD ==> r@ == "HEAD"@,
            self is OPTIONS ==> r@ == "OPTIONS"@,
    {
        match self {
            Method::GET => "GET",
            Method::HEAD => "HEAD",
            Method::OPTIONS => "OPTIONS",
        }
    }
}

} // verus!
