//! Little-endian byte encodings of the integer types carried on the wire and
//! in flash, with their inverse decodings.

use vstd::prelude::*;
use vstd::arithmetic::div_mod::lemma_fundamental_div_mod_converse;
use vstd::array::*;

verus! {

/// The four bytes of `x`, least significant first.
pub open spec fn le_u32(x: u32) -> Seq<u8> {
    seq![(x % 256) as u8, ((x / 256) % 256) as u8, ((x / 65536) % 256) as u8, (x / 16777216) as u8]
}

/// The eight bytes of `x`, least significant first.
pub open spec fn le_u64(x: u64) -> Seq<u8> {
    le_u32((x % 4294967296) as u32) + le_u32((x / 4294967296) as u32)
}

/// The integer whose little-endian bytes are the first four of `s`.
pub open spec fn u32_of(s: Seq<u8>) -> u32 {
    (s[0] + 256 * s[1] + 65536 * s[2] + 16777216 * s[3]) as u32
}

/// The integer whose little-endian bytes are the first eight of `s`.
pub open spec fn u64_of(s: Seq<u8>) -> u64 {
    (u32_of(s) + 4294967296 * u32_of(s.subrange(4, 8))) as u64
}

/// Decoding the bytes of a `u32` gives it back.
pub proof fn lemma_u32_roundtrip(x: u32)
    ensures
        le_u32(x).len() == 4,
        u32_of(le_u32(x)) == x,
{
}

/// Encoding what four bytes decode to gives the bytes back.
pub proof fn lemma_u32_bytes_roundtrip(s: Seq<u8>)
    requires
        s.len() == 4,
    ensures
        le_u32(u32_of(s)) == s,
{
    let s0 = s[0] as int;
    let s1 = s[1] as int;
    let s2 = s[2] as int;
    let s3 = s[3] as int;
    let v = s0 + 256 * s1 + 65536 * s2 + 16777216 * s3;
    let q1 = s1 + 256 * s2 + 65536 * s3;
    let q2 = s2 + 256 * s3;
    lemma_fundamental_div_mod_converse(v, 256, q1, s0);
    lemma_fundamental_div_mod_converse(q1, 256, q2, s1);
    lemma_fundamental_div_mod_converse(q2, 256, s3, s2);
    lemma_fundamental_div_mod_converse(v, 65536, q2, s0 + 256 * s1);
    lemma_fundamental_div_mod_converse(v, 16777216, s3, s0 + 256 * s1 + 65536 * s2);
    assert(le_u32(u32_of(s)) =~= s);
}

/// Decoding the bytes of a `u64` gives it back.
pub proof fn lemma_u64_roundtrip(x: u64)
    ensures
        le_u64(x).len() == 8,
        u64_of(le_u64(x)) == x,
{
    let lo = (x % 4294967296) as u32;
    let hi = (x / 4294967296) as u32;
    lemma_u32_roundtrip(lo);
    lemma_u32_roundtrip(hi);
    assert(le_u64(x).subrange(4, 8) =~= le_u32(hi));
    assert(u32_of(le_u64(x)) == u32_of(le_u32(lo)));
}

/// Encoding what eight bytes decode to gives the bytes back.
pub proof fn lemma_u64_bytes_roundtrip(s: Seq<u8>)
    requires
        s.len() == 8,
    ensures
        le_u64(u64_of(s)) == s,
{
    let lo = u32_of(s);
    let hi = u32_of(s.subrange(4, 8));
    let x = u64_of(s);
    assert(x % 4294967296 == lo);
    assert(x / 4294967296 == hi);
    lemma_u32_bytes_roundtrip(s.subrange(0, 4));
    lemma_u32_bytes_roundtrip(s.subrange(4, 8));
    assert(u32_of(s.subrange(0, 4)) == lo);
    assert(le_u64(x) =~= s.subrange(0, 4) + s.subrange(4, 8));
    assert(s.subrange(0, 4) + s.subrange(4, 8) =~= s);
}

/// An `i32` survives being stored as its `u32` bit pattern.
pub proof fn lemma_i32_roundtrip(x: i32)
    ensures
        (x as u32) as i32 == x,
{
    assert((x as u32) as i32 == x) by (bit_vector);
}

/// A `u32` bit pattern survives being read as an `i32`.
pub proof fn lemma_u32_i32_roundtrip(x: u32)
    ensures
        (x as i32) as u32 == x,
{
    assert((x as i32) as u32 == x) by (bit_vector);
}

/// An `i8` survives being stored as a byte.
pub proof fn lemma_i8_roundtrip(x: i8)
    ensures
        (x as u8) as i8 == x,
{
    assert((x as u8) as i8 == x) by (bit_vector);
}

/// A byte survives being read as an `i8`.
pub proof fn lemma_u8_i8_roundtrip(x: u8)
    ensures
        (x as i8) as u8 == x,
{
    assert((x as i8) as u8 == x) by (bit_vector);
}

/// Appends the little-endian bytes of `x`.
pub fn push_u32(out: &mut Vec<u8>, x: u32)
    ensures
        final(out)@ == old(out)@ + le_u32(x),
{
    out.push((x % 256) as u8);
    out.push(((x / 256) % 256) as u8);
    out.push(((x / 65536) % 256) as u8);
    out.push((x / 16777216) as u8);
    assert(final(out)@ =~= old(out)@ + le_u32(x));
}

/// Appends the little-endian bytes of `x`.
pub fn push_u64(out: &mut Vec<u8>, x: u64)
    ensures
        final(out)@ == old(out)@ + le_u64(x),
{
    let ghost start = out@;
    push_u32(out, (x % 4294967296) as u32);
    push_u32(out, (x / 4294967296) as u32);
    assert(out@ =~= start + le_u64(x));
}

/// Reads a little-endian `u32` at `off`.
pub fn read_u32(b: &[u8], off: usize) -> (r: u32)
    requires
        off + 4 <= b@.len(),
    ensures
        r == u32_of(b@.subrange(off as int, off + 4)),
{
    let b0 = b[off] as u32;
    let b1 = b[off + 1] as u32;
    let b2 = b[off + 2] as u32;
    let b3 = b[off + 3] as u32;
    b0 + b1 * 256 + b2 * 65536 + b3 * 16777216
}

/// Reads a little-endian `u64` at `off`.
pub fn read_u64(b: &[u8], off: usize) -> (r: u64)
    requires
        off + 8 <= b@.len(),
    ensures
        r == u64_of(b@.subrange(off as int, off + 8)),
{
    let len = b.len();
    let lo = read_u32(b, off) as u64;
    // `off + 8 <= len`, so `off + 4` cannot overflow.
    let hi = read_u32(b, off + 4) as u64;
    assert(off + 8 <= len);
    assert(b@.subrange(off as int, off + 8).subrange(4, 8) =~= b@.subrange(off + 4, off + 8));
    assert(b@.subrange(off as int, off + 8).subrange(0, 4) =~= b@.subrange(off as int, off + 4));
    lo + hi * 4294967296
}

/// Splits a prefix of `b` that is the concatenation `a + e` into its two parts.
pub proof fn lemma_prefix_split(b: Seq<u8>, a: Seq<u8>, e: Seq<u8>)
    requires
        a.len() + e.len() <= b.len(),
        b.subrange(0, (a.len() + e.len()) as int) == a + e,
    ensures
        b.subrange(0, a.len() as int) == a,
        b.subrange(a.len() as int, (a.len() + e.len()) as int) == e,
{
    let n = a.len() as int;
    let m = (a.len() + e.len()) as int;
    assert(b.subrange(0, n) =~= (a + e).subrange(0, n));
    assert(a =~= (a + e).subrange(0, n));
    assert(b.subrange(n, m) =~= (a + e).subrange(n, m));
    assert(e =~= (a + e).subrange(n, m));
}

/// A range of `b` is the concatenation of two adjacent shorter ranges.
pub proof fn lemma_range_join(b: Seq<u8>, i: int, j: int, k: int)
    requires
        0 <= i <= j <= k <= b.len(),
    ensures
        b.subrange(i, k) == b.subrange(i, j) + b.subrange(j, k),
{
    assert(b.subrange(i, k) =~= b.subrange(i, j) + b.subrange(j, k));
}

/// A range inside the second part of a concatenation is a range of that part.
pub proof fn lemma_range_in_suffix(a: Seq<u8>, t: Seq<u8>, i: int, j: int)
    requires
        0 <= i <= j <= t.len(),
    ensures
        (a + t).subrange(a.len() + i, a.len() + j) == t.subrange(i, j),
{
    assert((a + t).subrange(a.len() + i, a.len() + j) =~= t.subrange(i, j));
}

/// A range inside the first part of a concatenation is a range of that part.
pub proof fn lemma_range_in_prefix(a: Seq<u8>, t: Seq<u8>, i: int, j: int)
    requires
        0 <= i <= j <= a.len(),
    ensures
        (a + t).subrange(i, j) == a.subrange(i, j),
{
    assert((a + t).subrange(i, j) =~= a.subrange(i, j));
}

/// The one-byte range at `i` is the byte there.
pub proof fn lemma_byte_range(b: Seq<u8>, i: int)
    requires
        0 <= i < b.len(),
    ensures
        b.subrange(i, i + 1) == seq![b[i]],
{
    assert(b.subrange(i, i + 1) =~= seq![b[i]]);
}

/// `needle` occurs in `hay` starting at index `i`.
pub open spec fn window_at(hay: Seq<u8>, needle: Seq<u8>, i: int) -> bool {
    &&& 0 <= i
    &&& i + needle.len() <= hay.len()
    &&& hay.subrange(i, i + needle.len()) == needle
}

/// Whether `hay[i..i + needle.len()]` equals `needle`.
pub fn matches_at(hay: &[u8], needle: &[u8], i: usize) -> (r: bool)
    ensures
        r == window_at(hay@, needle@, i as int),
{
    if i > hay.len() || needle.len() > hay.len() - i {
        return false;
    }
    let n = hay.len();
    let mut k: usize = 0;
    while k < needle.len()
        invariant
            k <= needle@.len(),
            n == hay@.len(),
            i + needle@.len() <= hay@.len(),
            forall|j: int| 0 <= j < k ==> hay@[i + j] == needle@[j],
        decreases needle@.len() - k,
    {
        if hay[i + k] != needle[k] {
            assert(hay@.subrange(i as int, i + needle@.len())[k as int] != needle@[k as int]);
            return false;
        }
        k += 1;
    }
    assert(hay@.subrange(i as int, i + needle@.len()) =~= needle@);
    true
}

/// The first index at which `needle` occurs in `hay`, if any.
pub fn find_window(hay: &[u8], needle: &[u8]) -> (r: Option<usize>)
    ensures
        match r {
            Some(i) => {
                &&& window_at(hay@, needle@, i as int)
                &&& forall|j: int| 0 <= j < i ==> !window_at(hay@, needle@, j)
            },
            None => forall|j: int| !window_at(hay@, needle@, j),
        },
{
    let mut i: usize = 0;
    while i < hay.len()
        invariant
            i <= hay@.len(),
            forall|j: int| 0 <= j < i ==> !window_at(hay@, needle@, j),
        decreases hay@.len() - i,
    {
        if matches_at(hay, needle, i) {
            return Some(i);
        }
        i += 1;
    }
    if matches_at(hay, needle, i) {
        return Some(i);
    }
    assert forall|j: int| !window_at(hay@, needle@, j) by {
        if 0 <= j && j + needle@.len() <= hay@.len() {
            assert(j <= i);
        }
    }
    None
}

/// Copies a byte vector of length `N` into an array.
pub fn to_array<const N: usize>(v: &Vec<u8>) -> (r: [u8; N])
    requires
        v@.len() == N,
    ensures
        r@ == v@,
{
    let mut r: [u8; N] = array_fill_for_copy_types(0u8);
    let mut i: usize = 0;
    while i < N
        invariant
            i <= N,
            v@.len() == N,
            r@.len() == N,
            forall|j: int| 0 <= j < i ==> r@[j] == v@[j],
        decreases N - i,
    {
        r[i] = v[i];
        i += 1;
    }
    assert(r@ =~= v@);
    r
}

} // verus!
