//! Byte buffers of little-endian instruction words.

use vstd::prelude::*;
use crate::branching::{le_bytes, word_byte};
use crate::encoder::{Reg, spec_mov64_word, encode_mov64};

verus! {

/// The little-endian bytes of a sequence of instruction words, in order.
pub open spec fn words_le(ws: Seq<u32>) -> Seq<u8>
    decreases ws.len(),
{
    if ws.len() == 0 {
        Seq::empty()
    } else {
        words_le(ws.drop_last()) + le_bytes(ws.last())
    }
}

/// Byte encoding distributes over concatenation of word sequences.
pub proof fn lemma_words_le_append(a: Seq<u32>, b: Seq<u32>)
    ensures
        words_le(a + b) == words_le(a) + words_le(b),
    decreases b.len(),
{
    if b.len() == 0 {
        assert(a + b =~= a);
        assert(words_le(b) =~= Seq::<u8>::empty());
        assert(words_le(a) + words_le(b) =~= words_le(a));
    } else {
        lemma_words_le_append(a, b.drop_last());
        assert((a + b).drop_last() =~= a + b.drop_last());
        assert((a + b).last() == b.last());
        assert(words_le(a) + words_le(b) =~= words_le(a) + words_le(b.drop_last()) + le_bytes(b.last()));
    }
}

/// Every word contributes four bytes.
pub proof fn lemma_words_le_len(ws: Seq<u32>)
    ensures
        words_le(ws).len() == 4 * ws.len(),
    decreases ws.len(),
{
    if ws.len() > 0 {
        lemma_words_le_len(ws.drop_last());
    }
}

/// The bytes of a single word.
pub proof fn lemma_words_le_one(w: u32)
    ensures
        words_le(seq![w]) == le_bytes(w),
{
    assert(seq![w].drop_last() =~= Seq::<u32>::empty());
    assert(words_le(Seq::<u32>::empty()) =~= Seq::<u8>::empty());
    assert(seq![w].last() == w);
    assert(words_le(seq![w]) == words_le(seq![w].drop_last()) + le_bytes(seq![w].last()));
    assert(Seq::<u8>::empty() + le_bytes(w) =~= le_bytes(w));
}

/// The four words that load `value` into `reg`.
pub open spec fn mov64_seq(reg: Reg, value: u64) -> Seq<u32> {
    seq![
        spec_mov64_word(reg, value, 0),
        spec_mov64_word(reg, value, 1),
        spec_mov64_word(reg, value, 2),
        spec_mov64_word(reg, value, 3),
    ]
}

/// Appends the little-endian bytes of `w` to `buf`.
pub fn push_word(buf: &mut Vec<u8>, w: u32)
    ensures
        final(buf)@ == old(buf)@ + le_bytes(w),
{
    buf.push((w & 0xFFu32) as u8);
    buf.push(((w >> 8u32) & 0xFFu32) as u8);
    buf.push(((w >> 16u32) & 0xFFu32) as u8);
    buf.push(((w >> 24u32) & 0xFFu32) as u8);
    assert(w >> 0u32 == w) by (bit_vector);
    assert(final(buf)@ =~= old(buf)@ + le_bytes(w));
}

/// Appends the bytes of a word sequence to `buf`.
pub fn push_words(buf: &mut Vec<u8>, ws: &[u32])
    ensures
        final(buf)@ == old(buf)@ + words_le(ws@),
{
    let mut i: usize = 0;
    while i < ws.len()
        invariant
            0 <= i <= ws.len(),
            buf@ == old(buf)@ + words_le(ws@.take(i as int)),
        decreases ws.len() - i,
    {
        push_word(buf, ws[i]);
        proof {
            assert(ws@.take(i + 1).drop_last() =~= ws@.take(i as int));
            assert(ws@.take(i + 1).last() == ws@[i as int]);
        }
        i = i + 1;
    }
    assert(ws@.take(ws@.len() as int) =~= ws@);
}

/// The bytes of the `MOVZ`/`MOVK` sequence that loads `value` into `reg`.
pub fn mov64_bytes_into(buf: &mut Vec<u8>, reg: Reg, value: u64)
    ensures
        final(buf)@ == old(buf)@ + words_le(mov64_seq(reg, value)),
{
    let ws = encode_mov64(reg, value);
    let v = [ws[0], ws[1], ws[2], ws[3]];
    assert(v@ =~= mov64_seq(reg, value));
    push_words(buf, &v);
}

} // verus!
