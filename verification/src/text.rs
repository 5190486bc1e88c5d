//! Byte-string helpers shared by the parser and the response assembler:
//! ASCII literals as byte vectors, decimal rendering of numbers, and the
//! spec-level sequence forms the contracts are written in.
use vstd::prelude::*;

verus! {

use vstd::std_specs::cmp::PartialEqSpec;
use vstd::string::is_ascii;
use vstd::string::is_ascii_spec_bytes;

/// The bytes of an ASCII string, as a sequence of byte values.
pub open spec fn ascii_of(s: &str) -> Seq<u8> {
    Seq::new(s@.len(), |i: int| s@[i] as u8)
}

/// Append the bytes of an ASCII literal to a byte vector.
pub fn append_lit(out: &mut Vec<u8>, s: &str)
    requires
        is_ascii(s),
    ensures
        final(out)@ == old(out)@ + ascii_of(s),
{
    proof {
        is_ascii_spec_bytes(s);
    }
    let b: &[u8] = s.as_bytes();
    out.extend_from_slice(b);
    proof {
        assert(out@ =~= old(out)@ + ascii_of(s));
    }
}

/// The bytes of an ASCII literal as a fresh byte vector.
pub fn lit_vec(s: &str) -> (r: Vec<u8>)
    requires
        is_ascii(s),
    ensures
        r@ == ascii_of(s),
{
    let mut v: Vec<u8> = Vec::new();
    append_lit(&mut v, s);
    proof {
        assert(v@ =~= ascii_of(s));
    }
    v
}

/// Byte-vector equality, reflected into the sequence view.
pub fn bytes_eq(a: &Vec<u8>, b: &Vec<u8>) -> (r: bool)
    ensures
        r == (a@ == b@),
{
    let r = a == b;
    proof {
        if r {
            assert(a@ =~= b@);
        } else {
            if a@ == b@ {
                assert(a.eq_spec(b));
                assert(false);
            }
        }
    }
    r
}

/// Compare a byte vector against an ASCII literal.
pub fn eq_lit(a: &Vec<u8>, s: &str) -> (r: bool)
    requires
        is_ascii(s),
    ensures
        r == (a@ == ascii_of(s)),
{
    let v = lit_vec(s);
    bytes_eq(a, &v)
}

/// The decimal digits of a number, most significant first.
pub open spec fn dec_digits(n: nat) -> Seq<u8>
    decreases n,
{
    if n < 10 {
        seq![(48 + n) as u8]
    } else {
        dec_digits(n / 10) + seq![(48 + (n % 10)) as u8]
    }
}

/// Every byte of a decimal rendering is an ASCII digit.
pub proof fn lemma_dec_digits_are_digits(n: nat)
    ensures
        forall|i: int|
            0 <= i < dec_digits(n).len() ==> 48 <= #[trigger] dec_digits(n)[i] <= 57,
    decreases n,
{
    if n >= 10 {
        lemma_dec_digits_are_digits(n / 10);
        assert forall|i: int| 0 <= i < dec_digits(n).len() implies 48 <= #[trigger] dec_digits(
            n,
        )[i] <= 57 by {
            if i < dec_digits(n / 10).len() {
                assert(dec_digits(n)[i] == dec_digits(n / 10)[i]);
            } else {
                assert(dec_digits(n)[i] == (48 + (n % 10)) as u8);
            }
        }
    }
}

/// The number read back from a sequence of decimal digits.
pub open spec fn dec_value(s: Seq<u8>) -> int
    decreases s.len(),
{
    if s.len() == 0 {
        0
    } else {
        dec_value(s.drop_last()) * 10 + (s.last() - 48)
    }
}

/// Rendering a number in decimal and reading it back gives the number.
pub proof fn lemma_dec_digits_value(n: nat)
    ensures
        dec_value(dec_digits(n)) == n,
    decreases n,
{
    reveal_with_fuel(dec_value, 3);
    if n < 10 {
        assert(dec_digits(n).drop_last() =~= Seq::<u8>::empty());
        assert(dec_digits(n).last() == (48 + n) as u8);
        assert(dec_value(dec_digits(n).drop_last()) == 0);
    } else {
        lemma_dec_digits_value(n / 10);
        assert(dec_digits(n).drop_last() =~= dec_digits(n / 10));
        assert(dec_digits(n).last() == (48 + (n % 10)) as u8);
        assert((n / 10) * 10 + n % 10 == n) by (nonlinear_arith);
    }
}

/// Append the decimal rendering of a number to a byte vector.
pub fn append_dec(out: &mut Vec<u8>, n: u64)
    ensures
        final(out)@ == old(out)@ + dec_digits(n as nat),
    decreases n,
{
    if n < 10 {
        out.push(48 + n as u8);
        proof {
            assert(out@ =~= old(out)@ + dec_digits(n as nat));
        }
    } else {
        append_dec(out, n / 10);
        out.push(48 + (n % 10) as u8);
        proof {
            assert(out@ =~= old(out)@ + dec_digits(n as nat));
        }
    }
}

/// The decimal rendering of a number as a fresh byte vector.
pub fn dec_vec(n: u64) -> (r: Vec<u8>)
    ensures
        r@ == dec_digits(n as nat),
{
    let mut v: Vec<u8> = Vec::new();
    append_dec(&mut v, n);
    proof {
        assert(v@ =~= dec_digits(n as nat));
    }
    v
}

/// The position of the first space at or after `i`, or the length when
/// there is none.
pub open spec fn first_space(r: Seq<u8>, i: int) -> int
    decreases r.len() - i,
{
    if i < 0 || i >= r.len() {
        r.len() as int
    } else if r[i] == 32 {
        i
    } else {
        first_space(r, i + 1)
    }
}

/// The first space at or after `i` is the known one at `k`; when no space
/// follows at all, the scan answers the length.
pub proof fn lemma_first_space_at(r: Seq<u8>, i: int, k: int)
    requires
        0 <= i <= k <= r.len(),
        k < r.len() ==> r[k] == 32,
        forall|j: int| i <= j < k ==> r[j] != 32,
    ensures
        first_space(r, i) == k,
    decreases k - i,
{
    if i < k {
        lemma_first_space_at(r, i + 1, k);
    }
}

/// Copy a byte vector, keeping its view.
pub fn clone_bytes(v: &Vec<u8>) -> (r: Vec<u8>)
    ensures
        r@ == v@,
{
    let r = v.clone();
    proof {
        assert(r@ =~= v@);
    }
    r
}

/// Copy a vector of byte vectors, keeping its deep view.
pub fn clone_seqs(v: &Vec<Vec<u8>>) -> (r: Vec<Vec<u8>>)
    ensures
        r.deep_view() == v.deep_view(),
{
    proof {
        lemma_seqs_view(*v);
    }
    let mut r: Vec<Vec<u8>> = Vec::new();
    let mut i: usize = 0;
    while i < v.len()
        invariant
            0 <= i <= v@.len(),
            v.deep_view().len() == v@.len(),
            forall|j: int| 0 <= j < v@.len() ==> #[trigger] v.deep_view()[j] == v@[j]@,
            r.deep_view() == v.deep_view().subrange(0, i as int),
        decreases v@.len() - i,
    {
        let ghost before = r;
        r.push(clone_bytes(&v[i]));
        proof {
            lemma_seqs_view(before);
            lemma_seqs_view(r);
            assert(r.deep_view() =~= v.deep_view().subrange(0, i + 1));
        }
        i = i + 1;
    }
    proof {
        assert(v.deep_view().subrange(0, v@.len() as int) =~= v.deep_view());
    }
    r
}

/// Copy a vector of byte-vector pairs, keeping its deep view.
pub fn clone_pairs(v: &Vec<(Vec<u8>, Vec<u8>)>) -> (r: Vec<(Vec<u8>, Vec<u8>)>)
    ensures
        r.deep_view() == v.deep_view(),
{
    proof {
        crate::assoc::lemma_kv_view(*v);
    }
    let mut r: Vec<(Vec<u8>, Vec<u8>)> = Vec::new();
    let mut i: usize = 0;
    while i < v.len()
        invariant
            0 <= i <= v@.len(),
            v.deep_view().len() == v@.len(),
            forall|j: int|
                0 <= j < v@.len() ==> #[trigger] v.deep_view()[j] == (v@[j].0@, v@[j].1.deep_view()),
            r.deep_view() == v.deep_view().subrange(0, i as int),
        decreases v@.len() - i,
    {
        let ghost before = r;
        let key = clone_bytes(&v[i].0);
        let value = clone_bytes(&v[i].1);
        r.push((key, value));
        proof {
            crate::assoc::lemma_kv_view(before);
            crate::assoc::lemma_kv_view(r);
            assert(v@[i as int].1.deep_view() =~= v@[i as int].1@);
            assert(r.deep_view() =~= v.deep_view().subrange(0, i + 1));
        }
        i = i + 1;
    }
    proof {
        assert(v.deep_view().subrange(0, v@.len() as int) =~= v.deep_view());
    }
    r
}

/// Whether one byte vector starts with another.
pub fn bytes_starts_with(buf: &Vec<u8>, prefix: &Vec<u8>) -> (r: bool)
    ensures
        r == prefix@.is_prefix_of(buf@),
{
    if prefix.len() > buf.len() {
        return false;
    }
    let mut i: usize = 0;
    while i < prefix.len()
        invariant
            0 <= i <= prefix@.len(),
            prefix@.len() <= buf@.len(),
            forall|j: int| 0 <= j < i ==> buf@[j] == prefix@[j],
        decreases prefix@.len() - i,
    {
        if buf[i] != prefix[i] {
            proof {
                assert(buf@.subrange(0, prefix@.len() as int)[i as int] != prefix@[i as int]);
            }
            return false;
        }
        i = i + 1;
    }
    proof {
        assert(prefix@ =~= buf@.subrange(0, prefix@.len() as int));
    }
    true
}

/// The deep view of a vector of byte vectors indexes to the element views.
pub proof fn lemma_seqs_view(v: Vec<Vec<u8>>)
    ensures
        v.deep_view().len() == v@.len(),
        forall|j: int| 0 <= j < v@.len() ==> #[trigger] v.deep_view()[j] == v@[j]@,
{
    assert forall|j: int| 0 <= j < v@.len() implies #[trigger] v.deep_view()[j] == v@[j]@ by {
        assert(v@[j].deep_view() =~= v@[j]@);
    }
}

/// Append a copy of another byte vector.
pub fn append_bytes(out: &mut Vec<u8>, b: &Vec<u8>)
    ensures
        final(out)@ == old(out)@ + b@,
{
    let s: &[u8] = b.as_slice();
    out.extend_from_slice(s);
    proof {
        assert(out@ =~= old(out)@ + b@);
    }
}

} // verus!
