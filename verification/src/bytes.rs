//! Fixed-width integers as byte sequences, and small byte-slice helpers.

use vstd::prelude::*;

verus! {

/// `v` as two bytes, least significant first.
pub open spec fn le16(v: nat) -> Seq<u8> {
    seq![(v % 256) as u8, ((v / 256) % 256) as u8]
}

/// `v` as four bytes, least significant first.
pub open spec fn le32(v: u32) -> Seq<u8> {
    seq![
        (v % 256) as u8,
        ((v / 256) % 256) as u8,
        ((v / 65536) % 256) as u8,
        (v / 16777216) as u8,
    ]
}

/// `v` as four bytes, most significant first.
pub open spec fn be32(v: u32) -> Seq<u8> {
    seq![
        (v / 16777216) as u8,
        ((v / 65536) % 256) as u8,
        ((v / 256) % 256) as u8,
        (v % 256) as u8,
    ]
}

/// `v` as two bytes, most significant first.
pub open spec fn be16(v: u16) -> Seq<u8> {
    seq![(v / 256) as u8, (v % 256) as u8]
}

/// The 16-bit little-endian number at the head of `s`.
pub open spec fn from_le16(s: Seq<u8>) -> nat {
    (s[0] + 256 * s[1]) as nat
}

/// The 32-bit little-endian number in `s[at..at + 4]`.
pub open spec fn from_le32(s: Seq<u8>, at: int) -> u32 {
    (s[at] + 256 * s[at + 1] + 65536 * s[at + 2] + 16777216 * s[at + 3]) as u32
}

/// The 32-bit big-endian number in `s[0..4]`.
pub open spec fn from_be32(s: Seq<u8>) -> u32 {
    (s[3] + 256 * s[2] + 65536 * s[1] + 16777216 * s[0]) as u32
}

/// `n` copies of `b`.
pub open spec fn repeated(b: u8, n: nat) -> Seq<u8> {
    Seq::new(n, |i: int| b)
}

/// Reading back a little-endian pair gives the number that was written.
pub proof fn lemma_le16_round_trip(v: nat, rest: Seq<u8>)
    requires
        v <= 0xffff,
    ensures
        from_le16(le16(v) + rest) == v,
        le16(v).len() == 2,
{
}

/// Reading back a little-endian word gives the number that was written.
pub proof fn lemma_le32_round_trip(v: u32, pre: Seq<u8>, rest: Seq<u8>)
    ensures
        from_le32(pre + le32(v) + rest, pre.len() as int) == v,
{
    let s = pre + le32(v) + rest;
    let at = pre.len() as int;
    assert(s[at] == le32(v)[0]);
    assert(s[at + 1] == le32(v)[1]);
    assert(s[at + 2] == le32(v)[2]);
    assert(s[at + 3] == le32(v)[3]);
}

/// Reading back a big-endian word gives the number that was written.
pub proof fn lemma_be32_round_trip(v: u32)
    ensures
        from_be32(be32(v)) == v,
        be32(v).len() == 4,
{
}

pub fn push_le16(out: &mut Vec<u8>, v: usize)
    ensures
        final(out)@ == old(out)@ + le16(v as nat),
{
    out.push((v % 256) as u8);
    out.push(((v / 256) % 256) as u8);
    assert(out@ =~= old(out)@ + le16(v as nat));
}

pub fn push_le32(out: &mut Vec<u8>, v: u32)
    ensures
        final(out)@ == old(out)@ + le32(v),
{
    out.push((v % 256) as u8);
    out.push(((v / 256) % 256) as u8);
    out.push(((v / 65536) % 256) as u8);
    out.push((v / 16777216) as u8);
    assert(out@ =~= old(out)@ + le32(v));
}

pub fn push_be32(out: &mut Vec<u8>, v: u32)
    ensures
        final(out)@ == old(out)@ + be32(v),
{
    out.push((v / 16777216) as u8);
    out.push(((v / 65536) % 256) as u8);
    out.push(((v / 256) % 256) as u8);
    out.push((v % 256) as u8);
    assert(out@ =~= old(out)@ + be32(v));
}

pub fn push_be16(out: &mut Vec<u8>, v: u16)
    ensures
        final(out)@ == old(out)@ + be16(v),
{
    out.push((v / 256) as u8);
    out.push((v % 256) as u8);
    assert(out@ =~= old(out)@ + be16(v));
}

/// Append every byte of `more`.
pub fn push_all(out: &mut Vec<u8>, more: &[u8])
    ensures
        final(out)@ == old(out)@ + more@,
{
    let mut i: usize = 0;
    while i < more.len()
        invariant
            i <= more.len(),
            out@ == old(out)@ + more@.take(i as int),
        decreases more.len() - i,
    {
        out.push(more[i]);
        assert(more@.take(i + 1) =~= more@.take(i as int).push(more@[i as int]));
        assert(out@ =~= old(out)@ + more@.take(i + 1));
        i = i + 1;
    }
    assert(more@.take(more.len() as int) =~= more@);
}

/// Append `n` copies of `b`.
pub fn push_repeated(out: &mut Vec<u8>, b: u8, n: usize)
    ensures
        final(out)@ == old(out)@ + repeated(b, n as nat),
{
    let mut i: usize = 0;
    assert(out@ =~= old(out)@ + repeated(b, 0));
    while i < n
        invariant
            i <= n,
            out@ == old(out)@ + repeated(b, i as nat),
        decreases n - i,
    {
        out.push(b);
        assert(out@ =~= old(out)@ + repeated(b, (i + 1) as nat));
        i = i + 1;
    }
}

/// A fresh vector holding `s[from..to]`.
pub fn copy_range(s: &[u8], from: usize, to: usize) -> (out: Vec<u8>)
    requires
        from <= to <= s.len(),
    ensures
        out@ == s@.subrange(from as int, to as int),
{
    let mut out: Vec<u8> = Vec::new();
    push_all(&mut out, &s[from..to]);
    assert(out@ =~= s@.subrange(from as int, to as int));
    out
}

/// A fresh vector holding all of `s`.
pub fn copy_all(s: &[u8]) -> (out: Vec<u8>)
    ensures
        out@ == s@,
{
    let mut out: Vec<u8> = Vec::new();
    push_all(&mut out, s);
    assert(out@ =~= s@);
    out
}

/// Whether two byte slices hold the same bytes.
pub fn same_bytes(a: &[u8], b: &[u8]) -> (r: bool)
    ensures
        r == (a@ == b@),
{
    if a.len() != b.len() {
        return false;
    }
    let mut i: usize = 0;
    while i < a.len()
        invariant
            i <= a.len(),
            a.len() == b.len(),
            forall|j: int| 0 <= j < i ==> a@[j] == b@[j],
        decreases a.len() - i,
    {
        if a[i] != b[i] {
            return false;
        }
        i = i + 1;
    }
    assert(a@ =~= b@);
    true
}

/// The 16-bit little-endian number at the head of `p`.
pub fn rd_u16(p: &[u8]) -> (r: usize)
    requires
        p.len() >= 2,
    ensures
        r == from_le16(p@),
        r <= 0xffff,
{
    p[0] as usize + 256 * (p[1] as usize)
}

/// The 32-bit little-endian number in `p[at..at + 4]`.
pub fn rd_u32(p: &[u8], at: usize) -> (r: u32)
    requires
        at + 4 <= p.len(),
    ensures
        r == from_le32(p@, at as int),
{
    p[at] as u32 + 256 * (p[at + 1] as u32) + 65536 * (p[at + 2] as u32) + 16777216 * (p[at + 3]
        as u32)
}

} // verus!
