//! The request-target resolver: extracts the raw target from the request
//! line, splits it into path components, and rejects any path that would
//! escape the served content root. This textual check is the sole traversal
//! defense and runs before any file is touched.
use vstd::prelude::*;

verus! {

use crate::text::ascii_of;
use crate::text::first_space;
use crate::text::lemma_first_space_at;
use crate::text::lemma_seqs_view;
use crate::text::lit_vec;

/// The raw request-target of a request buffer: the text just after the
/// method token and the following space, with its one leading `/`
/// removed, up to the next space.
pub open spec fn raw_target(buf: Seq<u8>) -> Seq<u8> {
    let m = first_space(buf, 0);
    if m >= buf.len() {
        seq![]
    } else {
        let s = if m + 1 < buf.len() && buf[m + 1] == 47 {
            m + 2
        } else {
            m + 1
        };
        buf.subrange(s, first_space(buf, s))
    }
}

/// The path components of a byte path, split on `/`.
pub open spec fn split_from(p: Seq<u8>, i: int, cur: Seq<u8>) -> Seq<Seq<u8>>
    decreases p.len() - i,
{
    if i < 0 || i >= p.len() {
        seq![cur]
    } else if p[i] == 47 {
        seq![cur] + split_from(p, i + 1, seq![])
    } else {
        split_from(p, i + 1, cur.push(p[i]))
    }
}

/// The components of a path.
pub open spec fn path_segments(p: Seq<u8>) -> Seq<Seq<u8>> {
    split_from(p, 0, seq![])
}

/// Walk the components keeping the directory depth: empty components and
/// `.` are skipped, a normal component descends, and `..` must never pop
/// above the starting point.
pub open spec fn valid_segments(segs: Seq<Seq<u8>>, depth: int) -> bool
    decreases segs.len(),
{
    if segs.len() == 0 {
        true
    } else {
        let s = segs[0];
        if s.len() == 0 || s == seq![46u8] {
            valid_segments(segs.drop_first(), depth)
        } else if s == seq![46u8, 46u8] {
            depth > 0 && valid_segments(segs.drop_first(), depth - 1)
        } else {
            valid_segments(segs.drop_first(), depth + 1)
        }
    }
}

/// A path is safe when it does not start at the filesystem root and its
/// `..` components never escape the content root.
pub open spec fn spec_path_is_valid(p: Seq<u8>) -> bool {
    (p.len() == 0 || p[0] != 47) && valid_segments(path_segments(p), 0)
}

/// The resolved path of a request buffer: the raw target when it is safe,
/// `index.html` for an empty target, nothing for an unsafe target.
pub open spec fn spec_find_urn(buf: Seq<u8>) -> Option<Seq<u8>> {
    let uri = raw_target(buf);
    if !spec_path_is_valid(uri) {
        None
    } else if uri.len() == 0 {
        Some(ascii_of("index.html"))
    } else {
        Some(uri)
    }
}

/// Reject a path whose components would escape the content root.
pub fn path_is_valid(path: &Vec<u8>) -> (r: bool)
    ensures
        r == spec_path_is_valid(path@),
{
    let ghost p = path@;
    if path.len() > 0 && path[0] == 47 {
        return false;
    }
    // split the path into components
    let mut segs: Vec<Vec<u8>> = Vec::new();
    let mut cur: Vec<u8> = Vec::new();
    let mut i: usize = 0;
    while i < path.len()
        invariant
            0 <= i <= p.len(),
            p == path@,
            path_segments(p) == segs.deep_view() + split_from(p, i as int, cur@),
        decreases p.len() - i,
    {
        let b = path[i];
        if b == 47 {
            let ghost before = segs;
            let ghost oldcur = cur@;
            segs.push(cur);
            cur = Vec::new();
            proof {
                lemma_seqs_view(before);
                lemma_seqs_view(segs);
                assert(segs.deep_view() =~= before.deep_view() + seq![oldcur]);
                assert(split_from(p, i as int, oldcur) == seq![oldcur] + split_from(
                    p,
                    i + 1,
                    Seq::<u8>::empty(),
                ));
                assert(cur@ =~= Seq::<u8>::empty());
                assert(segs.deep_view() + split_from(p, i + 1, cur@) =~= path_segments(p));
            }
        } else {
            cur.push(b);
        }
        i = i + 1;
    }
    let ghost before = segs;
    segs.push(cur);
    proof {
        lemma_seqs_view(before);
        lemma_seqs_view(segs);
        assert(segs.deep_view() =~= path_segments(p));
    }
    // walk the components, tracking the directory depth
    let ghost sv = segs.deep_view();
    proof {
        assert(sv.skip(0) =~= sv);
    }
    let mut depth: usize = 0;
    let mut k: usize = 0;
    while k < segs.len()
        invariant
            0 <= k <= segs@.len(),
            depth <= k,
            p == path@,
            p.len() == 0 || p[0] != 47,
            sv == path_segments(p),
            sv == segs.deep_view(),
            sv.len() == segs@.len(),
            forall|j: int| 0 <= j < segs@.len() ==> #[trigger] sv[j] == segs@[j]@,
            valid_segments(sv, 0) == valid_segments(sv.skip(k as int), depth as int),
        decreases segs@.len() - k,
    {
        let s = &segs[k];
        proof {
            assert(sv.skip(k as int)[0] == sv[k as int]);
            assert(sv.skip(k as int).drop_first() =~= sv.skip(k as int + 1));
        }
        if s.len() == 0 {
            // empty components are skipped
        } else if s.len() == 1 && s[0] == 46 {
            proof {
                assert(s@ =~= seq![46u8]);
            }
        } else if s.len() == 2 && s[0] == 46 && s[1] == 46 {
            proof {
                assert(s@ =~= seq![46u8, 46u8]);
            }
            if depth == 0 {
                return false;
            }
            depth = depth - 1;
        } else {
            proof {
                assert(s@ != seq![46u8] && s@ != seq![46u8, 46u8]);
            }
            depth = depth + 1;
        }
        k = k + 1;
    }
    proof {
        assert(sv.skip(segs@.len() as int) =~= Seq::<Seq<u8>>::empty());
    }
    true
}

/// Finds the resolved path in the request's buffer.
///
/// Returns `None` if an invalid path was found.
pub fn find_urn(buffer: &Vec<u8>) -> (r: Option<Vec<u8>>)
    ensures
        r is Some <==> spec_find_urn(buffer@) is Some,
        r is Some ==> r->Some_0@ == spec_find_urn(buffer@)->Some_0,
{
    let ghost b = buffer@;
    // the method token runs to the first space
    let mut m: usize = 0;
    while m < buffer.len() && buffer[m] != 32
        invariant
            0 <= m <= b.len(),
            b == buffer@,
            forall|j: int| 0 <= j < m ==> b[j] != 32,
        decreases b.len() - m,
    {
        m = m + 1;
    }
    proof {
        lemma_first_space_at(b, 0, m as int);
    }
    let mut uri: Vec<u8> = Vec::new();
    if m < buffer.len() {
        let mut pos: usize = m + 1;
        if pos < buffer.len() && buffer[pos] == 47 {
            pos = pos + 1;
        }
        let ghost start = pos as int;
        proof {
            assert(uri@ =~= b.subrange(start, start));
        }
        while pos < buffer.len() && buffer[pos] != 32
            invariant
                0 <= start <= pos <= b.len(),
                b == buffer@,
                uri@ == b.subrange(start, pos as int),
                forall|j: int| start <= j < pos ==> b[j] != 32,
            decreases b.len() - pos,
        {
            uri.push(buffer[pos]);
            proof {
                assert(uri@ =~= b.subrange(start, pos + 1));
            }
            pos = pos + 1;
        }
        proof {
            lemma_first_space_at(b, start, pos as int);
            assert(uri@ == raw_target(b));
        }
    } else {
        proof {
            assert(uri@ =~= raw_target(b));
        }
    }
    if !path_is_valid(&uri) {
        return None;
    }
    if uri.len() == 0 {
        proof {
            reveal_strlit("index.html");
        }
        return Some(lit_vec("index.html"));
    }
    Some(uri)
}

/// The resolved request path of one request, or a note that resolving it
/// failed.
pub struct URI {
    uri: Option<Vec<u8>>,
    found_error: bool,
}

impl URI {
    /// The resolved path held, if any.
    pub closed spec fn uri_spec(&self) -> Option<Seq<u8>> {
        match self.uri {
            Some(v) => Some(v@),
            None => None,
        }
    }

    /// Whether resolving failed.
    pub closed spec fn error_spec(&self) -> bool {
        self.found_error
    }

    /// An empty resolver: no path yet, no error.
    pub fn new() -> (r: URI)
        ensures
            r.uri_spec() is None,
            !r.error_spec(),
    {
        URI { uri: None, found_error: false }
    }

    /// Resolve the request-target of a request buffer, keeping the safe
    /// path or recording that the target was rejected.
    pub fn find(&mut self, headers_buffer: &Vec<u8>)
        ensures
            final(self).uri_spec() == spec_find_urn(headers_buffer@),
            final(self).error_spec() == (spec_find_urn(headers_buffer@) is None),
    {
        match find_urn(headers_buffer) {
            Some(path) => {
                self.uri = Some(path);
                self.found_error = false;
            },
            None => {
                self.uri = None;
                self.found_error = true;
            },
        }
    }

    /// The resolved path.
    pub fn get(&self) -> (r: &Option<Vec<u8>>)
        ensures
            *r is Some <==> self.uri_spec() is Some,
            *r is Some ==> (*r)->Some_0@ == self.uri_spec()->Some_0,
    {
        &self.uri
    }

    /// Reject a path whose components would escape the content root.
    pub fn path_is_valid(path: &Vec<u8>) -> (r: bool)
        ensures
            r == spec_path_is_valid(path@),
    {
        path_is_valid(path)
    }
}

impl Default for URI {
    /// The default resolver is empty.
    fn default() -> (r: Self)
        ensures
            r.uri_spec() is None,
            !r.error_spec(),
    {
        Self::new()
    }
}

} // verus!
