//! The compute side of reading a request from a connection: deciding when
//! the header block is complete, gating on UTF-8 validity, and handing the
//! buffer to the header parser. The blocking socket reads themselves happen
//! outside the library and feed plain byte buffers in.
use vstd::prelude::*;

verus! {

use vstd::string::StringSliceAdditionalSpecFns;
use vstd::utf8::valid_utf8;
use crate::headers::Headers;
use crate::headers::find_buf_headers;
use crate::headers::parsed_headers;
use crate::text::clone_bytes;

#[verifier::external_type_specification]
#[verifier::external_body]
pub struct ExUtf8Error(core::str::Utf8Error);

/// Relies on core::str::from_utf8: it returns Ok exactly when the bytes
/// are valid UTF-8, and the returned slice is backed by the same bytes.
pub assume_specification[ core::str::from_utf8 ](v: &[u8]) -> (r: Result<
    &str,
    core::str::Utf8Error,
>)
    ensures
        r is Ok <==> valid_utf8(v@),
        r is Ok ==> r->Ok_0.spec_bytes() == v@,
;

/// Whether a byte buffer is valid UTF-8 text.
pub fn utf8_ok(buf: &[u8]) -> (r: bool)
    ensures
        r == valid_utf8(buf@),
{
    core::str::from_utf8(buf).is_ok()
}

/// A blank line ends the header block: a newline followed by another
/// newline, with only carriage returns in between.
pub open spec fn has_header_terminator(s: Seq<u8>) -> bool {
    exists|i: int, j: int|
        0 <= i < j < s.len() && s[i] == 10 && s[j] == 10 && (forall|k: int|
            i < k < j ==> s[k] == 13)
}

/// Scan a buffer for the header-block terminator.
pub fn headers_complete(buf: &[u8]) -> (r: bool)
    ensures
        r == has_header_terminator(buf@),
{
    let ghost s = buf@;
    let mut last_was_nl: bool = false;
    let ghost mut nl_at: int = 0;
    let mut idx: usize = 0;
    while idx < buf.len()
        invariant
            0 <= idx <= s.len(),
            s == buf@,
            forall|i: int, j: int|
                0 <= i < j < idx && s[i] == 10 && s[j] == 10 ==> exists|m: int|
                    i < m < j && s[m] != 13,
            last_was_nl ==> 0 <= nl_at < idx && s[nl_at] == 10 && (forall|k: int|
                nl_at < k < idx ==> s[k] == 13),
            !last_was_nl ==> forall|i: int|
                0 <= i < idx && s[i] == 10 ==> exists|m: int| i < m < idx && s[m] != 13,
        decreases s.len() - idx,
    {
        let b = buf[idx];
        if b == 13 {
            // carriage returns leave the scan state unchanged
        } else if b == 10 {
            if last_was_nl {
                proof {
                    assert(0 <= nl_at < idx as int && s[nl_at] == 10 && s[idx as int] == 10 && (
                    forall|k: int| nl_at < k < idx as int ==> s[k] == 13));
                }
                return true;
            }
            last_was_nl = true;
            proof {
                nl_at = idx as int;
            }
        } else {
            last_was_nl = false;
            proof {
                assert forall|i: int|
                    0 <= i < idx + 1 && s[i] == 10 implies exists|m: int|
                    i < m < idx + 1 && s[m] != 13 by {
                    assert(i < idx as int && s[idx as int] != 13 && s[idx as int] != 10);
                }
            }
        }
        idx = idx + 1;
    }
    proof {
        if has_header_terminator(s) {
            let (i, j): (int, int) = choose|i: int, j: int|
                0 <= i < j < s.len() && s[i] == 10 && s[j] == 10 && (forall|k: int|
                    i < k < j ==> s[k] == 13);
            assert(exists|m: int| i < m < j && s[m] != 13);
            assert(false);
        }
    }
    false
}

/// Parse the header block out of a fully read request buffer. The whole
/// buffer must be UTF-8 text and must yield at least one header, else the
/// request is malformed and answered with status 400.
pub fn read_stream(input: &[u8]) -> (r: Result<(Headers, Vec<u8>), u16>)
    ensures
        r is Ok <==> (valid_utf8(input@) && parsed_headers(input@).len() > 0),
        r is Err ==> r->Err_0 == 400,
        r is Ok ==> r->Ok_0.0@ == parsed_headers(input@) && r->Ok_0.1@ == input@,
{
    match find_buf_headers(input) {
        Ok(headers) => {
            let buf = vstd::slice::slice_to_vec(input);
            Ok((headers, buf))
        },
        Err(code) => Err(code),
    }
}

/// Re-check that a request buffer is UTF-8 text, keeping the bytes; a
/// buffer that is not yields status 400 together with the headers read
/// so far.
pub fn parse_utf8(headers: &Headers, buf: &Vec<u8>) -> (r: Result<Vec<u8>, (Headers, u16)>)
    ensures
        valid_utf8(buf@) ==> r is Ok && r->Ok_0@ == buf@,
        !valid_utf8(buf@) ==> r is Err && r->Err_0.0@ == headers@ && r->Err_0.1 == 400,
{
    if utf8_ok(buf.as_slice()) {
        Ok(clone_bytes(buf))
    } else {
        Err((headers.clone(), 400))
    }
}

/// A failed read of a request stream, keeping the bytes read so far.
pub struct ReadStreamError {
    buf: Vec<u8>,
}

impl ReadStreamError {
    /// The bytes that were read before the failure, for specifications.
    pub closed spec fn buf_spec(&self) -> Seq<u8> {
        self.buf@
    }

    /// Keep the buffer of a failed read.
    pub fn from(request: Vec<u8>) -> (r: Self)
        ensures
            r.buf_spec() == request@,
    {
        Self { buf: request }
    }

    /// A short description of the failure.
    pub fn message(&self) -> &'static str {
        "something went wrong when reading the request buffer's stream"
    }
}

} // verus!
