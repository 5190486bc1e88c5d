//! Request and response headers: a small map from header names to values
//! that keeps insertion order, and the parser that extracts `name:value`
//! lines from a raw request buffer.
use vstd::prelude::*;

verus! {

use crate::assoc::assoc_insert;
use crate::assoc::assoc_lookup;
use crate::assoc::lemma_assoc_index;
use crate::socket::utf8_ok;
use crate::text::bytes_eq;
use vstd::utf8::valid_utf8;

/// A header map: name/value pairs in insertion order, with unique names.
/// Its view is the sequence of pairs of byte strings.
pub struct Headers {
    pairs: Vec<(Vec<u8>, Vec<u8>)>,
}

impl View for Headers {
    type V = Seq<(Seq<u8>, Seq<u8>)>;

    closed spec fn view(&self) -> Seq<(Seq<u8>, Seq<u8>)> {
        self.pairs.deep_view()
    }
}

impl Clone for Headers {
    /// Cloning keeps the pairs.
    fn clone(&self) -> (r: Self)
        ensures
            r@ == self@,
    {
        let mut pairs: Vec<(Vec<u8>, Vec<u8>)> = Vec::new();
        let mut i: usize = 0;
        while i < self.pairs.len()
            invariant
                0 <= i <= self.pairs.len(),
                pairs.deep_view() == self.pairs.deep_view().subrange(0, i as int),
            decreases self.pairs.len() - i,
        {
            let name = crate::text::clone_bytes(&self.pairs[i].0);
            let value = crate::text::clone_bytes(&self.pairs[i].1);
            let ghost before = pairs;
            pairs.push((name, value));
            proof {
                lemma_pairs_view(before);
                lemma_pairs_view(pairs);
                lemma_pairs_view(self.pairs);
                assert(pairs.deep_view() =~= self.pairs.deep_view().subrange(0, i + 1));
            }
            i = i + 1;
        }
        proof {
            assert(self.pairs.deep_view().subrange(0, self.pairs.len() as int) =~= self.pairs.deep_view());
        }
        Headers { pairs }
    }
}

impl Headers {
    /// An empty header map.
    pub fn new() -> (r: Self)
        ensures
            r@ == Seq::<(Seq<u8>, Seq<u8>)>::empty(),
    {
        let r = Headers { pairs: Vec::new() };
        proof {
            assert(r@ =~= Seq::<(Seq<u8>, Seq<u8>)>::empty());
        }
        r
    }

    /// How many headers are in the map.
    pub fn len(&self) -> (r: usize)
        ensures
            r == self@.len(),
    {
        self.pairs.len()
    }

    /// The pair at a position, in insertion order.
    pub fn pair_at(&self, i: usize) -> (r: (&Vec<u8>, &Vec<u8>))
        requires
            i < self@.len(),
        ensures
            r.0@ == self@[i as int].0,
            r.1@ == self@[i as int].1,
    {
        proof {
            lemma_pairs_view(self.pairs);
        }
        let p = &self.pairs[i];
        (&p.0, &p.1)
    }

    /// The value stored under a name, if any.
    pub fn get(&self, name: &Vec<u8>) -> (r: Option<&Vec<u8>>)
        ensures
            match r {
                Some(v) => assoc_lookup(self@, name@) == Some(v@),
                None => assoc_lookup(self@, name@) is None,
            },
    {
        proof {
            lemma_pairs_view(self.pairs);
        }
        let mut i: usize = 0;
        while i < self.pairs.len()
            invariant
                0 <= i <= self@.len(),
                self@.len() == self.pairs.len(),
                forall|j: int| 0 <= j < i ==> (#[trigger] self@[j]).0 != name@,
                forall|j: int|
                    0 <= j < self.pairs.len() ==> #[trigger] self@[j] == (
                    self.pairs@[j].0@,
                    self.pairs@[j].1@,
                ),
            decreases self.pairs.len() - i,
        {
            if bytes_eq(&self.pairs[i].0, name) {
                proof {
                    crate::assoc::lemma_assoc_index_unique(self@, name@, i as int);
                }
                return Some(&self.pairs[i].1);
            }
            i = i + 1;
        }
        proof {
            lemma_assoc_index(self@, name@);
            if crate::assoc::assoc_has(self@, name@) {
                assert(self@[crate::assoc::assoc_index(self@, name@)].0 == name@);
                assert(false);
            }
        }
        None
    }

    /// Store a value under a name, replacing the first existing entry with
    /// that name or appending a new one.
    pub fn insert(&mut self, name: Vec<u8>, value: Vec<u8>)
        ensures
            final(self)@ == assoc_insert(old(self)@, name@, value@),
    {
        proof {
            lemma_pairs_view(self.pairs);
        }
        let ghost orig = self@;
        let ghost n = name@;
        let ghost v = value@;
        let mut i: usize = 0;
        while i < self.pairs.len()
            invariant
                0 <= i <= self@.len(),
                self@ == orig,
                orig == old(self)@,
                n == name@,
                v == value@,
                self@.len() == self.pairs.len(),
                forall|j: int| 0 <= j < i ==> (#[trigger] self@[j]).0 != n,
                forall|j: int|
                    0 <= j < self.pairs.len() ==> #[trigger] self@[j] == (
                    self.pairs@[j].0@,
                    self.pairs@[j].1@,
                ),
            decreases self.pairs.len() - i,
        {
            if bytes_eq(&self.pairs[i].0, &name) {
                proof {
                    crate::assoc::lemma_assoc_index_unique(self@, n, i as int);
                }
                self.pairs.remove(i);
                self.pairs.insert(i, (name, value));
                proof {
                    lemma_pairs_view(self.pairs);
                    assert(self@ =~= assoc_insert(orig, n, v));
                }
                return ;
            }
            i = i + 1;
        }
        proof {
            lemma_assoc_index(self@, n);
            if crate::assoc::assoc_has(self@, n) {
                assert(self@[crate::assoc::assoc_index(self@, n)].0 == n);
                assert(false);
            }
        }
        self.pairs.push((name, value));
        proof {
            lemma_pairs_view(self.pairs);
            assert(self@ =~= assoc_insert(orig, n, v));
        }
    }
}


/// The deep view of a pair vector indexes to the views of its fields.
pub proof fn lemma_pairs_view(v: Vec<(Vec<u8>, Vec<u8>)>)
    ensures
        v.deep_view().len() == v@.len(),
        forall|j: int|
            0 <= j < v@.len() ==> #[trigger] v.deep_view()[j] == (v@[j].0@, v@[j].1@),
{
    assert forall|j: int| 0 <= j < v@.len() implies #[trigger] v.deep_view()[j] == (
        v@[j].0@,
        v@[j].1@,
    ) by {
        assert(v@[j].0.deep_view() =~= v@[j].0@);
        assert(v@[j].1.deep_view() =~= v@[j].1@);
    }
}

/// One step of the header scan: CR or LF commits a line when both name
/// and value are non-empty; the name is the text before the line's first
/// colon; the value is the text after that colon with leading spaces
/// stripped.
pub open spec fn scan_headers(
    buf: Seq<u8>,
    i: int,
    name: Seq<u8>,
    value: Seq<u8>,
    seen_colon: bool,
    acc: Seq<(Seq<u8>, Seq<u8>)>,
) -> Seq<(Seq<u8>, Seq<u8>)>
    decreases buf.len() - i,
{
    if i < 0 || i >= buf.len() {
        acc
    } else {
        let c = buf[i];
        if c == 13 || c == 10 {
            if name.len() > 0 && value.len() > 0 {
                scan_headers(buf, i + 1, seq![], seq![], false, assoc_insert(acc, name, value))
            } else {
                scan_headers(buf, i + 1, seq![], seq![], false, acc)
            }
        } else if !seen_colon {
            if c == 58 {
                scan_headers(buf, i + 1, name, value, true, acc)
            } else {
                scan_headers(buf, i + 1, name.push(c), value, seen_colon, acc)
            }
        } else if c == 32 && value.len() == 0 {
            scan_headers(buf, i + 1, name, value, seen_colon, acc)
        } else {
            scan_headers(buf, i + 1, name, value.push(c), seen_colon, acc)
        }
    }
}

/// The headers committed by scanning a whole buffer.
pub open spec fn parsed_headers(buf: Seq<u8>) -> Seq<(Seq<u8>, Seq<u8>)> {
    scan_headers(buf, 0, seq![], seq![], false, seq![])
}

/// Extract the header lines from a raw request buffer. A buffer that is
/// not UTF-8 text, or that yields no header at all, is malformed and maps
/// to status 400.
pub fn find_buf_headers(buf: &[u8]) -> (r: Result<Headers, u16>)
    ensures
        r is Ok <==> (valid_utf8(buf@) && parsed_headers(buf@).len() > 0),
        r is Err ==> r->Err_0 == 400,
        r is Ok ==> r->Ok_0@ == parsed_headers(buf@),
{
    if !utf8_ok(buf) {
        return Err(400);
    }
    let ghost s = buf@;
    let mut headers = Headers::new();
    let mut name: Vec<u8> = Vec::new();
    let mut value: Vec<u8> = Vec::new();
    let mut seen_colon: bool = false;
    let mut i: usize = 0;
    while i < buf.len()
        invariant
            0 <= i <= s.len(),
            s == buf@,
            parsed_headers(s) == scan_headers(s, i as int, name@, value@, seen_colon, headers@),
        decreases s.len() - i,
    {
        let c = buf[i];
        if c == 13 || c == 10 {
            if name.len() > 0 && value.len() > 0 {
                headers.insert(name, value);
            }
            name = Vec::new();
            value = Vec::new();
            seen_colon = false;
        } else if !seen_colon {
            if c == 58 {
                seen_colon = true;
            } else {
                name.push(c);
            }
        } else if !(c == 32 && value.len() == 0) {
            value.push(c);
        }
        i = i + 1;
    }
    if headers.len() == 0 {
        return Err(400);
    }
    Ok(headers)
}

} // verus!
