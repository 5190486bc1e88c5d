//! Served files: extracting a file extension, mapping it to a MIME type,
//! and the cache entry a loaded file is kept in.
use vstd::prelude::*;

verus! {

use crate::text::ascii_of;
use crate::text::eq_lit;
use crate::text::lit_vec;

/// The position of the last `.` in a name, or 0 when there is none.
pub open spec fn dot_scan(s: Seq<u8>, i: int, best: int) -> int
    decreases s.len() - i,
{
    if i < 0 || i >= s.len() {
        best
    } else if s[i] == 46 {
        dot_scan(s, i + 1, i)
    } else {
        dot_scan(s, i + 1, best)
    }
}

/// The bytes after the last `.` of a file name; with no `.`, everything
/// after the first byte.
pub open spec fn spec_extension(s: Seq<u8>) -> Seq<u8> {
    s.subrange(dot_scan(s, 0, 0) + 1, s.len() as int)
}

/// The scan stays within the name and never moves backwards.
pub proof fn lemma_dot_scan_bounds(s: Seq<u8>, i: int, best: int)
    requires
        0 <= best < s.len(),
        best <= i,
    ensures
        0 <= dot_scan(s, i, best) < s.len(),
        dot_scan(s, i, best) >= best,
    decreases s.len() - i,
{
    if i < s.len() {
        if s[i] == 46 {
            lemma_dot_scan_bounds(s, i + 1, i);
        } else {
            lemma_dot_scan_bounds(s, i + 1, best);
        }
    }
}

/// The extension of a file name: the text after its last dot.
pub fn get_file_extension(filename: &Vec<u8>) -> (r: Vec<u8>)
    requires
        filename@.len() >= 1,
    ensures
        r@ == spec_extension(filename@),
{
    let ghost s = filename@;
    proof {
        lemma_dot_scan_bounds(s, 0, 0);
    }
    let mut last_dot_index: usize = 0;
    let mut i: usize = 0;
    while i < filename.len()
        invariant
            0 <= i <= s.len(),
            s == filename@,
            s.len() >= 1,
            0 <= last_dot_index < s.len(),
            dot_scan(s, 0, 0) == dot_scan(s, i as int, last_dot_index as int),
        decreases s.len() - i,
    {
        if filename[i] == 46 {
            last_dot_index = i;
        }
        i = i + 1;
    }
    let mut r: Vec<u8> = Vec::new();
    let mut j: usize = last_dot_index + 1;
    while j < filename.len()
        invariant
            last_dot_index + 1 <= j <= s.len(),
            s == filename@,
            r@ == s.subrange(last_dot_index + 1, j as int),
        decreases s.len() - j,
    {
        let b = filename[j];
        r.push(b);
        proof {
            assert(r@ =~= s.subrange(last_dot_index + 1, j + 1));
        }
        j = j + 1;
    }
    proof {
        if last_dot_index + 1 > s.len() {
            assert(false);
        }
        assert(r@ =~= spec_extension(s));
    }
    r
}

/// The MIME type of a file extension.
pub open spec fn spec_mime(ext: Seq<u8>) -> Seq<u8> {
    if ext == ascii_of("html") {
        ascii_of("text/html")
    } else if ext == ascii_of("css") {
        ascii_of("text/css")
    } else if ext == ascii_of("js") {
        ascii_of("application/javascript")
    } else {
        ascii_of("text/plain")
    }
}

/// Map a file extension to the Content-Type it is served with.
pub fn find_mime_type(file_extension: &Vec<u8>) -> (r: Vec<u8>)
    ensures
        r@ == spec_mime(file_extension@),
{
    proof {
        reveal_strlit("html");
        reveal_strlit("css");
        reveal_strlit("js");
        reveal_strlit("text/html");
        reveal_strlit("text/css");
        reveal_strlit("application/javascript");
        reveal_strlit("text/plain");
    }
    if eq_lit(file_extension, "html") {
        lit_vec("text/html")
    } else if eq_lit(file_extension, "css") {
        lit_vec("text/css")
    } else if eq_lit(file_extension, "js") {
        lit_vec("application/javascript")
    } else {
        lit_vec("text/plain")
    }
}

/// A file kept in memory: its extension and its text content.
pub struct CachedFile {
    pub extension: Vec<u8>,
    pub content: Vec<u8>,
}

impl DeepView for CachedFile {
    type V = (Seq<u8>, Seq<u8>);

    open spec fn deep_view(&self) -> (Seq<u8>, Seq<u8>) {
        (self.extension@, self.content@)
    }
}

} // verus!
