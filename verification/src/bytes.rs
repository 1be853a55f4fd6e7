//! Big-endian numbers in a run of bytes

use vstd::prelude::*;

verus! {

/// The 16-bit number two bytes spell, most significant first
pub open spec fn be16(hi: u8, lo: u8) -> u16 {
    (hi * 256 + lo) as u16
}

/// The 32-bit number four bytes spell, most significant first
pub open spec fn be32(a: u8, b: u8, c: u8, d: u8) -> u32 {
    (((a * 256 + b) * 256 + c) * 256 + d) as u32
}

/// The 16-bit number at `i`
pub open spec fn be16_at(b: Seq<u8>, i: int) -> u16 {
    be16(b[i], b[i + 1])
}

/// The 32-bit number at `i`
pub open spec fn be32_at(b: Seq<u8>, i: int) -> u32 {
    be32(b[i], b[i + 1], b[i + 2], b[i + 3])
}

/// The two bytes of a 16-bit number, most significant first
pub open spec fn be16_bytes(v: u16) -> Seq<u8> {
    seq![(v / 256) as u8, (v % 256) as u8]
}

/// The four bytes of a 32-bit number, most significant first
pub open spec fn be32_bytes(v: u32) -> Seq<u8> {
    seq![
        (v / 0x100_0000) as u8,
        (v / 0x1_0000 % 256) as u8,
        (v / 256 % 256) as u8,
        (v % 256) as u8,
    ]
}

/// Spell out a 16-bit number
pub fn join16(hi: u8, lo: u8) -> (r: u16)
    ensures
        r == be16(hi, lo),
{
    hi as u16 * 256 + lo as u16
}

/// Spell out a 32-bit number
pub fn join32(a: u8, b: u8, c: u8, d: u8) -> (r: u32)
    ensures
        r == be32(a, b, c, d),
{
    ((a as u32 * 256 + b as u32) * 256 + c as u32) * 256 + d as u32
}

/// The 16-bit number at `i`
pub fn read16(b: &[u8], i: usize) -> (r: u16)
    requires
        i + 2 <= b@.len(),
    ensures
        r == be16_at(b@, i as int),
{
    join16(b[i], b[i + 1])
}

/// The 32-bit number at `i`
pub fn read32(b: &[u8], i: usize) -> (r: u32)
    requires
        i + 4 <= b@.len(),
    ensures
        r == be32_at(b@, i as int),
{
    join32(b[i], b[i + 1], b[i + 2], b[i + 3])
}

/// Byte `n` of a 32-bit number, the most significant being 0
pub fn byte_of(v: u32, n: usize) -> (r: u8)
    requires
        n < 4,
    ensures
        r == be32_bytes(v)[n as int],
{
    match n {
        0 => (v / 0x100_0000) as u8,
        1 => (v / 0x1_0000 % 256) as u8,
        2 => (v / 256 % 256) as u8,
        _ => (v % 256) as u8,
    }
}

/// Append a 16-bit number
pub fn push16(out: &mut Vec<u8>, v: u16)
    ensures
        final(out)@ == old(out)@ + be16_bytes(v),
{
    let ghost before = out@;
    out.push((v / 256) as u8);
    out.push((v % 256) as u8);
    proof {
        assert(out@ =~= before + be16_bytes(v));
    }
}

/// Append a 32-bit number
pub fn push32(out: &mut Vec<u8>, v: u32)
    ensures
        final(out)@ == old(out)@ + be32_bytes(v),
{
    let ghost before = out@;
    out.push(byte_of(v, 0));
    out.push(byte_of(v, 1));
    out.push(byte_of(v, 2));
    out.push(byte_of(v, 3));
    proof {
        assert(out@ =~= before + be32_bytes(v));
    }
}

/// A copy of a run of bytes
pub fn copied(b: &[u8]) -> (r: Vec<u8>)
    ensures
        r@ == b@,
{
    let mut r: Vec<u8> = Vec::new();
    let mut i: usize = 0;
    while i < b.len()
        invariant
            i <= b@.len(),
            r@ == b@.take(i as int),
        decreases b@.len() - i,
    {
        r.push(b[i]);
        i += 1;
    }
    r
}

/// Writing a 32-bit number down and reading it back gives it back
pub proof fn lemma_be32_round(v: u32)
    ensures
        be32_at(be32_bytes(v), 0) == v,
{
    assert(v / 0x1_0000 == v / 0x100_0000 * 256 + v / 0x1_0000 % 256);
    assert(v / 256 == v / 0x1_0000 * 256 + v / 256 % 256);
}

/// Reading a 16-bit number and writing it down again gives the same bytes
pub proof fn lemma_be16_bytes(hi: u8, lo: u8)
    ensures
        be16_bytes(be16(hi, lo)) == seq![hi, lo],
{
}

/// Reading a 32-bit number and writing it down again gives the same bytes
pub proof fn lemma_be32_bytes(a: u8, b: u8, c: u8, d: u8)
    ensures
        be32_bytes(be32(a, b, c, d)) == seq![a, b, c, d],
{
    let v = ((a * 256 + b) * 256 + c) * 256 + d;
    assert(v / 256 == (a * 256 + b) * 256 + c && v % 256 == d);
    assert(v / 0x1_0000 == a * 256 + b);
    assert(v / 0x100_0000 == a);
    assert(be32(a, b, c, d) == v);
    assert(be32_bytes(be32(a, b, c, d)) =~= seq![a, b, c, d]);
}

/// A 16-bit number whose bytes are at `i` is what is read there
pub proof fn lemma_be16_at(s: Seq<u8>, i: int, v: u16)
    requires
        0 <= i,
        i + 2 <= s.len(),
        s.subrange(i, i + 2) == be16_bytes(v),
    ensures
        be16_at(s, i) == v,
{
    assert(s[i] == s.subrange(i, i + 2)[0] && s[i + 1] == s.subrange(i, i + 2)[1]);
}

/// A 32-bit number whose bytes are at `i` is what is read there
pub proof fn lemma_be32_at(s: Seq<u8>, i: int, v: u32)
    requires
        0 <= i,
        i + 4 <= s.len(),
        s.subrange(i, i + 4) == be32_bytes(v),
    ensures
        be32_at(s, i) == v,
{
    let b = s.subrange(i, i + 4);
    assert(s[i] == b[0] && s[i + 1] == b[1] && s[i + 2] == b[2] && s[i + 3] == b[3]);
    lemma_be32_round(v);
}

/// What is read as a 16-bit number is written again as the same two bytes
pub proof fn lemma_be16_again(s: Seq<u8>, i: int)
    requires
        0 <= i,
        i + 2 <= s.len(),
    ensures
        be16_bytes(be16_at(s, i)) == s.subrange(i, i + 2),
{
    lemma_be16_bytes(s[i], s[i + 1]);
    assert(seq![s[i], s[i + 1]] =~= s.subrange(i, i + 2));
}

/// What is read as a 32-bit number is written again as the same four bytes
pub proof fn lemma_be32_again(s: Seq<u8>, i: int)
    requires
        0 <= i,
        i + 4 <= s.len(),
    ensures
        be32_bytes(be32_at(s, i)) == s.subrange(i, i + 4),
{
    lemma_be32_bytes(s[i], s[i + 1], s[i + 2], s[i + 3]);
    assert(seq![s[i], s[i + 1], s[i + 2], s[i + 3]] =~= s.subrange(i, i + 4));
}

/// Reading most significant byte first: each byte further on counts 256 times
/// less
pub proof fn law_bytes_are_digits(b: Seq<u8>, i: int)
    ensures
        be16_at(b, i) == 0x100 * b[i] + b[i + 1],
        be32_at(b, i) == 0x100_0000 * b[i] + 0x1_0000 * b[i + 1] + 0x100 * b[i + 2] + b[i + 3],
{
}

/// The bytes of a number spell it, most significant first
pub proof fn law_bytes_spell_the_number(v: u16, w: u32)
    ensures
        be16_bytes(v).len() == 2,
        0x100 * be16_bytes(v)[0] + be16_bytes(v)[1] == v,
        be32_bytes(w).len() == 4,
        0x100_0000 * be32_bytes(w)[0] + 0x1_0000 * be32_bytes(w)[1] + 0x100 * be32_bytes(w)[2]
            + be32_bytes(w)[3] == w,
{
    lemma_be32_round(w);
    law_bytes_are_digits(be32_bytes(w), 0);
}

} // verus!
