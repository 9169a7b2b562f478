//! Big-endian encoding of 16-bit and 32-bit words, with proofs that
//! decoding inverts encoding.

use vstd::prelude::*;

verus! {

/// The two bytes of `x`, most significant first.
pub open spec fn be16(x: u16) -> Seq<u8> {
    seq![((x >> 8) & 0xff) as u8, (x & 0xff) as u8]
}

/// The four bytes of `x`, most significant first.
pub open spec fn be32(x: u32) -> Seq<u8> {
    seq![
        ((x >> 24) & 0xff) as u8,
        ((x >> 16) & 0xff) as u8,
        ((x >> 8) & 0xff) as u8,
        (x & 0xff) as u8,
    ]
}

/// The 16-bit word whose big-endian bytes are `b0`, `b1`.
pub open spec fn be16_val(b0: u8, b1: u8) -> u16 {
    (((b0 as u16) << 8) | (b1 as u16)) as u16
}

/// The 32-bit word whose big-endian bytes are `b0` through `b3`.
pub open spec fn be32_val(b0: u8, b1: u8, b2: u8, b3: u8) -> u32 {
    (((b0 as u32) << 24) | ((b1 as u32) << 16) | ((b2 as u32) << 8) | (b3 as u32)) as u32
}

/// The 32-bit word read from `bytes` at offset `off`, big-endian.
pub open spec fn word_at(bytes: Seq<u8>, off: int) -> u32 {
    be32_val(bytes[off], bytes[off + 1], bytes[off + 2], bytes[off + 3])
}

/// The `n` consecutive 32-bit words read from `bytes` starting at `off`.
pub open spec fn words_at(bytes: Seq<u8>, off: int, n: nat) -> Seq<u32> {
    Seq::new(n, |k: int| word_at(bytes, off + 4 * k))
}

/// The big-endian bytes of every word of `ws`, concatenated.
pub open spec fn words_bytes(ws: Seq<u32>) -> Seq<u8>
    decreases ws.len(),
{
    if ws.len() == 0 {
        Seq::empty()
    } else {
        be32(ws[0]) + words_bytes(ws.subrange(1, ws.len() as int))
    }
}

/// Decoding the two big-endian bytes of a 16-bit word gives the word back.
pub proof fn lemma_be16_roundtrip(x: u16)
    ensures
        be16_val(be16(x)[0], be16(x)[1]) == x,
{
    assert(be16_val(((x >> 8) & 0xff) as u8, (x & 0xff) as u8) == x) by (bit_vector);
}

/// Decoding the four big-endian bytes of a 32-bit word gives the word back.
pub proof fn lemma_be32_roundtrip(x: u32)
    ensures
        word_at(be32(x), 0) == x,
{
    assert(be32_val(
        ((x >> 24) & 0xff) as u8,
        ((x >> 16) & 0xff) as u8,
        ((x >> 8) & 0xff) as u8,
        (x & 0xff) as u8,
    ) == x) by (bit_vector);
}

/// A word sequence's encoding is four bytes per word.
pub proof fn lemma_words_bytes_len(ws: Seq<u32>)
    ensures
        words_bytes(ws).len() == 4 * ws.len(),
    decreases ws.len(),
{
    if ws.len() > 0 {
        lemma_words_bytes_len(ws.subrange(1, ws.len() as int));
    }
}

/// Appending one word to a sequence appends its four bytes to the encoding.
pub proof fn lemma_words_bytes_push(ws: Seq<u32>, x: u32)
    ensures
        words_bytes(ws.push(x)) == words_bytes(ws) + be32(x),
    decreases ws.len(),
{
    if ws.len() == 0 {
        let one = ws.push(x);
        assert(words_bytes(one) == be32(one[0]) + words_bytes(one.subrange(1, 1)));
        assert(one.subrange(1, 1) =~= Seq::<u32>::empty());
        assert(words_bytes(Seq::<u32>::empty()) == Seq::<u8>::empty());
        assert(words_bytes(one) =~= be32(x));
        assert(words_bytes(ws) + be32(x) =~= be32(x));
    } else {
        let tail = ws.subrange(1, ws.len() as int);
        lemma_words_bytes_push(tail, x);
        assert(ws.push(x).subrange(1, ws.push(x).len() as int) =~= tail.push(x));
        assert(words_bytes(ws.push(x)) == be32(ws[0]) + words_bytes(tail.push(x)));
        assert(be32(ws[0]) + (words_bytes(tail) + be32(x)) =~= (be32(ws[0]) + words_bytes(tail))
            + be32(x));
    }
}

/// Reading word `k` back out of a word sequence's encoding gives `ws[k]`.
pub proof fn lemma_words_bytes_word(ws: Seq<u32>, k: int)
    requires
        0 <= k < ws.len(),
    ensures
        word_at(words_bytes(ws), 4 * k) == ws[k],
    decreases ws.len(),
{
    lemma_words_bytes_len(ws);
    if k == 0 {
        lemma_be32_roundtrip(ws[0]);
        assert(words_bytes(ws)[0] == be32(ws[0])[0]);
        assert(words_bytes(ws)[1] == be32(ws[0])[1]);
        assert(words_bytes(ws)[2] == be32(ws[0])[2]);
        assert(words_bytes(ws)[3] == be32(ws[0])[3]);
    } else {
        let tail = ws.subrange(1, ws.len() as int);
        lemma_words_bytes_word(tail, k - 1);
        lemma_words_bytes_len(tail);
        assert(words_bytes(ws)[4 * k] == words_bytes(tail)[4 * (k - 1)]);
        assert(words_bytes(ws)[4 * k + 1] == words_bytes(tail)[4 * (k - 1) + 1]);
        assert(words_bytes(ws)[4 * k + 2] == words_bytes(tail)[4 * (k - 1) + 2]);
        assert(words_bytes(ws)[4 * k + 3] == words_bytes(tail)[4 * (k - 1) + 3]);
    }
}

/// Appends the two big-endian bytes of `x` to `out`.
pub fn push_be16(out: &mut Vec<u8>, x: u16)
    ensures
        final(out)@ == old(out)@ + be16(x),
{
    let b0: u8 = ((x >> 8) & 0xff) as u8;
    let b1: u8 = (x & 0xff) as u8;
    out.push(b0);
    out.push(b1);
    assert(out@ =~= old(out)@ + be16(x));
}

/// Appends the four big-endian bytes of `x` to `out`.
pub fn push_be32(out: &mut Vec<u8>, x: u32)
    ensures
        final(out)@ == old(out)@ + be32(x),
{
    let b0: u8 = ((x >> 24) & 0xff) as u8;
    let b1: u8 = ((x >> 16) & 0xff) as u8;
    let b2: u8 = ((x >> 8) & 0xff) as u8;
    let b3: u8 = (x & 0xff) as u8;
    out.push(b0);
    out.push(b1);
    out.push(b2);
    out.push(b3);
    assert(out@ =~= old(out)@ + be32(x));
}

/// Reads the big-endian 16-bit word at offset `off` of `bytes`.
pub fn read_be16(bytes: &[u8], off: usize) -> (r: u16)
    requires
        off + 2 <= bytes@.len(),
    ensures
        r == be16_val(bytes@[off as int], bytes@[off as int + 1]),
{
    ((bytes[off] as u16) << 8) | (bytes[off + 1] as u16)
}

/// Reads the big-endian 32-bit word at offset `off` of `bytes`.
pub fn read_be32(bytes: &[u8], off: usize) -> (r: u32)
    requires
        off + 4 <= bytes@.len(),
    ensures
        r == word_at(bytes@, off as int),
{
    ((bytes[off] as u32) << 24) | ((bytes[off + 1] as u32) << 16) | ((bytes[off + 2] as u32) << 8)
        | (bytes[off + 3] as u32)
}

} // verus!
