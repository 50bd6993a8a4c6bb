//! Big-endian integers and byte strings as they appear in the agent's packets.
use vstd::prelude::*;

verus! {

/// The two big-endian bytes of `v`.
pub open spec fn be16(v: u16) -> Seq<u8> {
    seq![(v >> 8u16) as u8, v as u8]
}

/// The four big-endian bytes of `v`.
pub open spec fn be32(v: u32) -> Seq<u8> {
    seq![(v >> 24u32) as u8, (v >> 16u32) as u8, (v >> 8u32) as u8, v as u8]
}

/// The eight big-endian bytes of `v`.
pub open spec fn be64(v: u64) -> Seq<u8> {
    be32((v >> 32u64) as u32) + be32(v as u32)
}

/// The sixteen big-endian bytes of `v`.
pub open spec fn be128(v: u128) -> Seq<u8> {
    be64((v >> 64u128) as u64) + be64(v as u64)
}

/// The number whose big-endian bytes are `b[0]`, `b[1]`.
pub open spec fn read_be16(b: Seq<u8>) -> u16 {
    ((b[0] as u16) << 8u16) | (b[1] as u16)
}

/// The number whose big-endian bytes are `b[0..4]`.
pub open spec fn read_be32(b: Seq<u8>) -> u32 {
    ((b[0] as u32) << 24u32) | ((b[1] as u32) << 16u32) | ((b[2] as u32) << 8u32) | (b[3] as u32)
}

/// The number whose big-endian bytes are `b[0..8]`.
pub open spec fn read_be64(b: Seq<u8>) -> u64 {
    ((read_be32(b) as u64) << 32u64) | (read_be32(b.subrange(4, 8)) as u64)
}

/// The number whose big-endian bytes are `b[0..16]`.
pub open spec fn read_be128(b: Seq<u8>) -> u128 {
    ((read_be64(b) as u128) << 64u128) | (read_be64(b.subrange(8, 16)) as u128)
}

proof fn lemma_u16_bytes(v: u16, h: u8, l: u8)
    ensures
        h == (v >> 8u16) as u8 && l == v as u8 ==> ((h as u16) << 8u16) | (l as u16) == v,
        ((((h as u16) << 8u16) | (l as u16)) >> 8u16) as u8 == h,
        (((h as u16) << 8u16) | (l as u16)) as u8 == l,
{
    assert(h == (v >> 8u16) as u8 && l == v as u8 ==> ((h as u16) << 8u16) | (l as u16) == v)
        by (bit_vector);
    assert(((((h as u16) << 8u16) | (l as u16)) >> 8u16) as u8 == h) by (bit_vector);
    assert((((h as u16) << 8u16) | (l as u16)) as u8 == l) by (bit_vector);
}

proof fn lemma_u32_bytes(v: u32, a: u8, b: u8, c: u8, d: u8)
    ensures
        a == (v >> 24u32) as u8 && b == (v >> 16u32) as u8 && c == (v >> 8u32) as u8 && d
            == v as u8 ==> ((a as u32) << 24u32) | ((b as u32) << 16u32) | ((c as u32) << 8u32)
            | (d as u32) == v,
        ((((a as u32) << 24u32) | ((b as u32) << 16u32) | ((c as u32) << 8u32) | (d as u32))
            >> 24u32) as u8 == a,
        ((((a as u32) << 24u32) | ((b as u32) << 16u32) | ((c as u32) << 8u32) | (d as u32))
            >> 16u32) as u8 == b,
        ((((a as u32) << 24u32) | ((b as u32) << 16u32) | ((c as u32) << 8u32) | (d as u32))
            >> 8u32) as u8 == c,
        (((a as u32) << 24u32) | ((b as u32) << 16u32) | ((c as u32) << 8u32) | (d as u32)) as u8
            == d,
{
    assert(a == (v >> 24u32) as u8 && b == (v >> 16u32) as u8 && c == (v >> 8u32) as u8 && d
        == v as u8 ==> ((a as u32) << 24u32) | ((b as u32) << 16u32) | ((c as u32) << 8u32) | (
    d as u32) == v) by (bit_vector);
    assert(((((a as u32) << 24u32) | ((b as u32) << 16u32) | ((c as u32) << 8u32) | (d as u32))
        >> 24u32) as u8 == a) by (bit_vector);
    assert(((((a as u32) << 24u32) | ((b as u32) << 16u32) | ((c as u32) << 8u32) | (d as u32))
        >> 16u32) as u8 == b) by (bit_vector);
    assert(((((a as u32) << 24u32) | ((b as u32) << 16u32) | ((c as u32) << 8u32) | (d as u32))
        >> 8u32) as u8 == c) by (bit_vector);
    assert((((a as u32) << 24u32) | ((b as u32) << 16u32) | ((c as u32) << 8u32) | (d as u32))
        as u8 == d) by (bit_vector);
}

proof fn lemma_u64_halves(v: u64, h: u32, l: u32)
    ensures
        h == (v >> 32u64) as u32 && l == v as u32 ==> ((h as u64) << 32u64) | (l as u64) == v,
        ((((h as u64) << 32u64) | (l as u64)) >> 32u64) as u32 == h,
        (((h as u64) << 32u64) | (l as u64)) as u32 == l,
{
    assert(h == (v >> 32u64) as u32 && l == v as u32 ==> ((h as u64) << 32u64) | (l as u64) == v)
        by (bit_vector);
    assert(((((h as u64) << 32u64) | (l as u64)) >> 32u64) as u32 == h) by (bit_vector);
    assert((((h as u64) << 32u64) | (l as u64)) as u32 == l) by (bit_vector);
}

proof fn lemma_u128_halves(v: u128, h: u64, l: u64)
    ensures
        h == (v >> 64u128) as u64 && l == v as u64 ==> ((h as u128) << 64u128) | (l as u128) == v,
        ((((h as u128) << 64u128) | (l as u128)) >> 64u128) as u64 == h,
        (((h as u128) << 64u128) | (l as u128)) as u64 == l,
{
    assert(h == (v >> 64u128) as u64 && l == v as u64 ==> ((h as u128) << 64u128) | (l as u128)
        == v) by (bit_vector);
    assert(((((h as u128) << 64u128) | (l as u128)) >> 64u128) as u64 == h) by (bit_vector);
    assert((((h as u128) << 64u128) | (l as u128)) as u64 == l) by (bit_vector);
}

/// Reading back the bytes of a number gives the number.
pub proof fn lemma_be16(v: u16)
    ensures
        be16(v).len() == 2,
        read_be16(be16(v)) == v,
{
    lemma_u16_bytes(v, (v >> 8u16) as u8, v as u8);
}

/// Two bytes are the encoding of the number they are read as.
pub proof fn lemma_read_be16(b: Seq<u8>)
    requires
        b.len() == 2,
    ensures
        be16(read_be16(b)) == b,
{
    lemma_u16_bytes(0, b[0], b[1]);
    assert(be16(read_be16(b)) =~= b);
}

pub proof fn lemma_be32(v: u32)
    ensures
        be32(v).len() == 4,
        read_be32(be32(v)) == v,
{
    lemma_u32_bytes(v, (v >> 24u32) as u8, (v >> 16u32) as u8, (v >> 8u32) as u8, v as u8);
}

pub proof fn lemma_read_be32(b: Seq<u8>)
    requires
        b.len() == 4,
    ensures
        be32(read_be32(b)) == b,
{
    lemma_u32_bytes(0, b[0], b[1], b[2], b[3]);
    assert(be32(read_be32(b)) =~= b);
}

pub proof fn lemma_be64(v: u64)
    ensures
        be64(v).len() == 8,
        read_be64(be64(v)) == v,
{
    let h = (v >> 32u64) as u32;
    let l = v as u32;
    lemma_be32(h);
    lemma_be32(l);
    assert(be64(v).subrange(4, 8) =~= be32(l));
    assert(read_be32(be64(v)) == read_be32(be32(h)));
    lemma_u64_halves(v, h, l);
}

pub proof fn lemma_read_be64(b: Seq<u8>)
    requires
        b.len() == 8,
    ensures
        be64(read_be64(b)) == b,
{
    let h = read_be32(b);
    let l = read_be32(b.subrange(4, 8));
    lemma_u64_halves(0, h, l);
    lemma_read_be32(b.subrange(0, 4));
    lemma_read_be32(b.subrange(4, 8));
    assert(read_be32(b.subrange(0, 4)) == h);
    assert(be64(read_be64(b)) =~= b.subrange(0, 4) + b.subrange(4, 8));
    assert(b =~= b.subrange(0, 4) + b.subrange(4, 8));
}

pub proof fn lemma_be128(v: u128)
    ensures
        be128(v).len() == 16,
        read_be128(be128(v)) == v,
{
    let h = (v >> 64u128) as u64;
    let l = v as u64;
    lemma_be64(h);
    lemma_be64(l);
    assert(be128(v).subrange(8, 16) =~= be64(l));
    assert(be128(v).subrange(0, 4) =~= be64(h).subrange(0, 4));
    assert(be128(v).subrange(4, 8) =~= be64(h).subrange(4, 8));
    assert(read_be64(be128(v)) == read_be64(be64(h)));
    lemma_u128_halves(v, h, l);
}

pub proof fn lemma_read_be128(b: Seq<u8>)
    requires
        b.len() == 16,
    ensures
        be128(read_be128(b)) == b,
{
    let h = read_be64(b);
    let l = read_be64(b.subrange(8, 16));
    lemma_u128_halves(0, h, l);
    assert(b.subrange(0, 8).subrange(4, 8) =~= b.subrange(4, 8));
    assert(read_be64(b.subrange(0, 8)) == h);
    lemma_read_be64(b.subrange(0, 8));
    lemma_read_be64(b.subrange(8, 16));
    assert(be128(read_be128(b)) =~= b.subrange(0, 8) + b.subrange(8, 16));
    assert(b =~= b.subrange(0, 8) + b.subrange(8, 16));
}

/// Appends `bytes` to `out`.
pub fn push_bytes(out: &mut Vec<u8>, bytes: &[u8])
    ensures
        final(out)@ == old(out)@ + bytes@,
{
    let mut i: usize = 0;
    while i < bytes.len()
        invariant
            i <= bytes@.len(),
            out@ == old(out)@ + bytes@.subrange(0, i as int),
        decreases bytes@.len() - i,
    {
        out.push(bytes[i]);
        i = i + 1;
        assert(out@ =~= old(out)@ + bytes@.subrange(0, i as int));
    }
    assert(bytes@.subrange(0, bytes@.len() as int) =~= bytes@);
}

pub fn push_be16(out: &mut Vec<u8>, v: u16)
    ensures
        final(out)@ == old(out)@ + be16(v),
{
    out.push((v >> 8u16) as u8);
    out.push(v as u8);
    assert(out@ =~= old(out)@ + be16(v));
}

pub fn push_be32(out: &mut Vec<u8>, v: u32)
    ensures
        final(out)@ == old(out)@ + be32(v),
{
    out.push((v >> 24u32) as u8);
    out.push((v >> 16u32) as u8);
    out.push((v >> 8u32) as u8);
    out.push(v as u8);
    assert(out@ =~= old(out)@ + be32(v));
}

pub fn push_be64(out: &mut Vec<u8>, v: u64)
    ensures
        final(out)@ == old(out)@ + be64(v),
{
    push_be32(out, (v >> 32u64) as u32);
    push_be32(out, v as u32);
    assert(out@ =~= old(out)@ + be64(v));
}

pub fn push_be128(out: &mut Vec<u8>, v: u128)
    ensures
        final(out)@ == old(out)@ + be128(v),
{
    push_be64(out, (v >> 64u128) as u64);
    push_be64(out, v as u64);
    assert(out@ =~= old(out)@ + be128(v));
}

/// The big-endian number in `bytes[at..at + 2]`.
pub fn get_be16(bytes: &[u8], at: usize) -> (v: u16)
    requires
        at + 2 <= bytes@.len(),
    ensures
        v == read_be16(bytes@.subrange(at as int, at + 2)),
{
    ((bytes[at] as u16) << 8u16) | (bytes[at + 1] as u16)
}

/// The big-endian number in `bytes[at..at + 4]`.
pub fn get_be32(bytes: &[u8], at: usize) -> (v: u32)
    requires
        at + 4 <= bytes@.len(),
    ensures
        v == read_be32(bytes@.subrange(at as int, at + 4)),
{
    ((bytes[at] as u32) << 24u32) | ((bytes[at + 1] as u32) << 16u32) | ((bytes[at + 2] as u32)
        << 8u32) | (bytes[at + 3] as u32)
}

/// The big-endian number in `bytes[at..at + 8]`.
pub fn get_be64(bytes: &[u8], at: usize) -> (v: u64)
    requires
        at + 8 <= bytes@.len(),
    ensures
        v == read_be64(bytes@.subrange(at as int, at + 8)),
{
    let n = bytes.len();
    assert(at + 8 <= n);
    let high = get_be32(bytes, at);
    let low = get_be32(bytes, at + 4);
    assert(bytes@.subrange(at as int, at + 8).subrange(4, 8) =~= bytes@.subrange(
        at + 4,
        at + 8,
    ));
    assert(read_be32(bytes@.subrange(at as int, at + 8)) == read_be32(
        bytes@.subrange(at as int, at + 4),
    ));
    ((high as u64) << 32u64) | (low as u64)
}

/// The big-endian number in `bytes[at..at + 16]`.
pub fn get_be128(bytes: &[u8], at: usize) -> (v: u128)
    requires
        at + 16 <= bytes@.len(),
    ensures
        v == read_be128(bytes@.subrange(at as int, at + 16)),
{
    let n = bytes.len();
    assert(at + 16 <= n);
    let high = get_be64(bytes, at);
    let low = get_be64(bytes, at + 8);
    let ghost whole = bytes@.subrange(at as int, at + 16);
    assert(whole.subrange(8, 16) =~= bytes@.subrange(at + 8, at + 16));
    assert(whole.subrange(0, 4) =~= bytes@.subrange(at as int, at + 4));
    assert(whole.subrange(4, 8) =~= bytes@.subrange(at + 4, at + 8));
    assert(bytes@.subrange(at as int, at + 8).subrange(4, 8) =~= bytes@.subrange(at + 4, at + 8));
    assert(bytes@.subrange(at as int, at + 8).subrange(0, 4) =~= bytes@.subrange(at as int, at + 4));
    ((high as u128) << 64u128) | (low as u128)
}

/// Whether `bytes` begins with `prefix`.
pub fn starts_with(bytes: &[u8], prefix: &[u8]) -> (b: bool)
    ensures
        b == (prefix@.len() <= bytes@.len() && bytes@.subrange(0, prefix@.len() as int)
            == prefix@),
{
    if prefix.len() > bytes.len() {
        return false;
    }
    let mut i: usize = 0;
    while i < prefix.len()
        invariant
            prefix@.len() <= bytes@.len(),
            i <= prefix@.len(),
            forall|j: int| 0 <= j < i ==> bytes@[j] == prefix@[j],
        decreases prefix@.len() - i,
    {
        if bytes[i] != prefix[i] {
            assert(bytes@.subrange(0, prefix@.len() as int)[i as int] != prefix@[i as int]);
            return false;
        }
        i = i + 1;
    }
    assert(bytes@.subrange(0, prefix@.len() as int) =~= prefix@);
    true
}

} // verus!
