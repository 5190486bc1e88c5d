//! The low-level response writer: status line, header lines, blank line,
//! body, exactly as the bytes go out on the wire.
use vstd::prelude::*;

verus! {

use crate::assoc::assoc_insert;
use crate::configuration::Configuration;
use crate::headers::Headers;
use crate::status::spec_reason;
use crate::status::valid_status;
use crate::text::append_bytes;
use crate::text::first_space;
use crate::text::lemma_first_space_at;
use crate::text::append_dec;
use crate::text::ascii_of;
use crate::text::dec_digits;

/// The header lines of a response: `CRLF name : value` for each pair, in
/// order.
pub open spec fn render_headers(hs: Seq<(Seq<u8>, Seq<u8>)>) -> Seq<u8>
    decreases hs.len(),
{
    if hs.len() == 0 {
        seq![]
    } else {
        render_headers(hs.drop_last()) + seq![13u8, 10u8] + hs.last().0 + seq![58u8] + hs.last().1
    }
}

/// A whole response on the wire: protocol, code, reason phrase, header
/// lines, a blank line, then the body.
pub open spec fn render_response(
    protocol: Seq<u8>,
    code: u16,
    hs: Seq<(Seq<u8>, Seq<u8>)>,
    body: Seq<u8>,
) -> Seq<u8> {
    protocol + seq![32u8] + dec_digits(code as nat) + seq![32u8] + spec_reason(code)
        + render_headers(hs) + seq![13u8, 10u8, 13u8, 10u8] + body
}

/// The three security headers, applied in order; clickjacking protection
/// is left out when embedding in frames is explicitly allowed.
pub open spec fn with_security_headers(hs: Seq<(Seq<u8>, Seq<u8>)>, allow_iframes: bool) -> Seq<
    (Seq<u8>, Seq<u8>),
> {
    let h1 = assoc_insert(hs, ascii_of("X-Content-Type-Options"), ascii_of("nosniff"));
    let h2 = if !allow_iframes {
        assoc_insert(h1, ascii_of("X-Frame-Options"), ascii_of("DENY"))
    } else {
        h1
    };
    assoc_insert(h2, ascii_of("Cross-Origin-Resource-Policy"), ascii_of("same-origin"))
}

/// Collects the parts of one response and writes them out.
pub struct ResponseBuilder {
    pub protocol: Option<Vec<u8>>,
    pub status_code: Option<u16>,
    pub body: Option<Vec<u8>>,
    pub headers: Headers,
    pub config: Configuration,
}

impl ResponseBuilder {
    /// The protocol token, for specifications.
    pub open spec fn protocol_spec(&self) -> Option<Seq<u8>> {
        match self.protocol {
            Some(ref p) => Some(p@),
            None => None,
        }
    }

    /// The body, for specifications.
    pub open spec fn body_spec(&self) -> Option<Seq<u8>> {
        match self.body {
            Some(ref b) => Some(b@),
            None => None,
        }
    }

    /// An empty builder over a configuration.
    pub fn new(config: Configuration) -> (r: Self)
        ensures
            r.protocol is None,
            r.status_code is None,
            r.body is None,
            r.headers@ == Seq::<(Seq<u8>, Seq<u8>)>::empty(),
            r.config@ == config@,
    {
        ResponseBuilder {
            protocol: None,
            status_code: None,
            body: None,
            headers: Headers::new(),
            config,
        }
    }

    /// Pick the protocol token the configuration calls for.
    pub fn detect_protocol(&mut self)
        ensures
            final(self).protocol_spec() == Some(
                crate::http::spec_protocol(old(self).config@.http_protocol_version),
            ),
            final(self).status_code == old(self).status_code,
            final(self).body_spec() == old(self).body_spec(),
            final(self).headers@ == old(self).headers@,
            final(self).config@ == old(self).config@,
    {
        let p = self.config.http_protocol_version.protocol_bytes();
        self.protocol = Some(p);
    }

    /// Add the security headers; clickjacking protection is skipped when
    /// the configuration allows embedding in frames.
    pub fn apply_security_headers(&mut self)
        ensures
            final(self).headers@ == with_security_headers(
                old(self).headers@,
                old(self).config@.allow_iframes,
            ),
            final(self).protocol_spec() == old(self).protocol_spec(),
            final(self).status_code == old(self).status_code,
            final(self).body_spec() == old(self).body_spec(),
            final(self).config@ == old(self).config@,
    {
        proof {
            reveal_strlit("X-Content-Type-Options");
            reveal_strlit("nosniff");
            reveal_strlit("X-Frame-Options");
            reveal_strlit("DENY");
            reveal_strlit("Cross-Origin-Resource-Policy");
            reveal_strlit("same-origin");
        }
        self.add_header(
            crate::text::lit_vec("X-Content-Type-Options"),
            crate::text::lit_vec("nosniff"),
        );
        if !self.config.allow_iframes {
            self.add_header(crate::text::lit_vec("X-Frame-Options"), crate::text::lit_vec("DENY"));
        }
        self.add_header(
            crate::text::lit_vec("Cross-Origin-Resource-Policy"),
            crate::text::lit_vec("same-origin"),
        );
    }

    /// Set the status code.
    pub fn status_code(&mut self, status: u16)
        ensures
            final(self).status_code == Some(status),
            final(self).protocol_spec() == old(self).protocol_spec(),
            final(self).body_spec() == old(self).body_spec(),
            final(self).headers@ == old(self).headers@,
            final(self).config@ == old(self).config@,
    {
        self.status_code = Some(status);
    }

    /// Set the body.
    pub fn body(&mut self, body: Vec<u8>)
        ensures
            final(self).body_spec() == Some(body@),
            final(self).protocol_spec() == old(self).protocol_spec(),
            final(self).status_code == old(self).status_code,
            final(self).headers@ == old(self).headers@,
            final(self).config@ == old(self).config@,
    {
        self.body = Some(body);
    }

    /// Add one header.
    pub fn add_header(&mut self, key: Vec<u8>, val: Vec<u8>)
        ensures
            final(self).headers@ == assoc_insert(old(self).headers@, key@, val@),
            final(self).protocol_spec() == old(self).protocol_spec(),
            final(self).status_code == old(self).status_code,
            final(self).body_spec() == old(self).body_spec(),
            final(self).config@ == old(self).config@,
    {
        self.headers.insert(key, val);
    }

    /// Write the response out. The protocol, a produced status code, and
    /// the body must all have been set.
    pub fn construct(&self) -> (r: Vec<u8>)
        requires
            self.protocol_spec() is Some,
            self.status_code is Some,
            valid_status(self.status_code->Some_0),
            self.body_spec() is Some,
        ensures
            r@ == render_response(
                self.protocol_spec()->Some_0,
                self.status_code->Some_0,
                self.headers@,
                self.body_spec()->Some_0,
            ),
    {
        let ghost proto = self.protocol_spec()->Some_0;
        let ghost code = self.status_code->Some_0;
        let ghost hs = self.headers@;
        let ghost bod = self.body_spec()->Some_0;
        let mut out: Vec<u8> = Vec::new();
        append_bytes(&mut out, self.protocol.as_ref().unwrap());
        out.push(32);
        let status = *self.status_code.as_ref().unwrap();
        append_dec(&mut out, status as u64);
        out.push(32);
        let reason = crate::status::reason_vec(status);
        append_bytes(&mut out, &reason);
        proof {
            assert(out@ =~= proto + seq![32u8] + dec_digits(code as nat) + seq![32u8] + spec_reason(
                code,
            ));
        }
        let ghost line = out@;
        let mut i: usize = 0;
        while i < self.headers.len()
            invariant
                0 <= i <= hs.len(),
                hs == self.headers@,
                out@ == line + render_headers(hs.subrange(0, i as int)),
            decreases hs.len() - i,
        {
            let (key, val) = self.headers.pair_at(i);
            append_lit_crlf(&mut out);
            append_bytes(&mut out, key);
            out.push(58);
            append_bytes(&mut out, val);
            proof {
                assert(hs.subrange(0, i + 1).drop_last() =~= hs.subrange(0, i as int));
                assert(hs.subrange(0, i + 1).last() == hs[i as int]);
                assert(out@ =~= line + render_headers(hs.subrange(0, i + 1)));
            }
            i = i + 1;
        }
        proof {
            assert(hs.subrange(0, hs.len() as int) =~= hs);
        }
        append_lit_crlf(&mut out);
        append_lit_crlf(&mut out);
        append_bytes(&mut out, self.body.as_ref().unwrap());
        proof {
            assert(out@ =~= render_response(proto, code, hs, bod));
        }
        out
    }
}

impl crate::response::factory::ResponseFactory for ResponseBuilder {
    type ResponseContent = Vec<u8>;

    type ResponseError = crate::error::ServerError;

    /// Write the response out, or report that a required part was never
    /// set: the protocol, the body, or a status code the server produces.
    fn build(self) -> (r: Result<Vec<u8>, crate::error::ServerError>)
        ensures
            r is Ok <==> (self.protocol_spec() is Some && self.body_spec() is Some
                && self.status_code is Some && valid_status(self.status_code->Some_0)),
            r is Ok ==> r->Ok_0@ == render_response(
                self.protocol_spec()->Some_0,
                self.status_code->Some_0,
                self.headers@,
                self.body_spec()->Some_0,
            ),
    {
        if self.protocol.is_none() || self.body.is_none() {
            return Err(crate::error::ServerError::UnknownError);
        }
        match self.status_code {
            Some(code) => {
                if code == 200 || code == 400 || code == 404 || code == 405 || code == 500 {
                    Ok(self.construct())
                } else {
                    Err(crate::error::ServerError::UnknownError)
                }
            },
            None => Err(crate::error::ServerError::UnknownError),
        }
    }
}

/// The numeric code read back from a response's status line: the digits
/// between the first and the second space.
pub open spec fn status_line_code(r: Seq<u8>) -> int {
    let a = first_space(r, 0);
    let b = first_space(r, a + 1);
    crate::text::dec_value(r.subrange(a + 1, b))
}

/// Reading the status line of an assembled response gives back the status
/// code it was assembled with, whatever the headers and the body hold.
pub proof fn lemma_status_line_round_trip(
    protocol: Seq<u8>,
    code: u16,
    hs: Seq<(Seq<u8>, Seq<u8>)>,
    body: Seq<u8>,
)
    requires
        protocol.len() > 0,
        forall|j: int| 0 <= j < protocol.len() ==> protocol[j] != 32,
    ensures
        status_line_code(render_response(protocol, code, hs, body)) == code,
{
    let r = render_response(protocol, code, hs, body);
    let d = dec_digits(code as nat);
    let a = protocol.len() as int;
    let b = a + 1 + d.len();
    crate::text::lemma_dec_digits_are_digits(code as nat);
    assert(r[a] == 32);
    assert(forall|j: int| 0 <= j < a ==> r[j] == protocol[j] && r[j] != 32);
    lemma_first_space_at(r, 0, a);
    assert(r[b] == 32);
    assert forall|j: int| a + 1 <= j < b implies r[j] != 32 by {
        assert(r[j] == d[j - (a + 1)]);
    }
    lemma_first_space_at(r, a + 1, b);
    assert(r.subrange(a + 1, b) =~= d);
    crate::text::lemma_dec_digits_value(code as nat);
}

/// Append a carriage return and a line feed.
fn append_lit_crlf(out: &mut Vec<u8>)
    ensures
        final(out)@ == old(out)@ + seq![13u8, 10u8],
{
    out.push(13);
    out.push(10);
    proof {
        assert(out@ =~= old(out)@ + seq![13u8, 10u8]);
    }
}

} // verus!
