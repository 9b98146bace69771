//! Little-endian encoding of 32-bit words.

use vstd::prelude::*;

verus! {

/// The four bytes of `x`, least significant first.
pub open spec fn le_bytes_u32(x: u32) -> Seq<u8> {
    seq![
        (x & 0xff) as u8,
        ((x >> 8u32) & 0xff) as u8,
        ((x >> 16u32) & 0xff) as u8,
        ((x >> 24u32) & 0xff) as u8,
    ]
}

/// The value that four little-endian bytes stand for.
pub open spec fn le_value(b: Seq<u8>) -> int
    recommends
        b.len() == 4,
{
    b[0] + 256 * b[1] + 65536 * b[2] + 16777216 * b[3]
}

/// The little-endian encoding of a sequence of words, one after another.
pub open spec fn le_words(s: Seq<u32>) -> Seq<u8>
    decreases s.len(),
{
    if s.len() == 0 {
        Seq::empty()
    } else {
        le_words(s.drop_last()) + le_bytes_u32(s.last())
    }
}

/// Reading back the four bytes of a word gives the word.
pub proof fn lemma_le_bytes_roundtrip(x: u32)
    ensures
        le_bytes_u32(x).len() == 4,
        le_value(le_bytes_u32(x)) == x,
{
    let b0 = (x & 0xff) as u8;
    let b1 = ((x >> 8u32) & 0xff) as u8;
    let b2 = ((x >> 16u32) & 0xff) as u8;
    let b3 = ((x >> 24u32) & 0xff) as u8;
    assert(x == (x & 0xff) + 256 * ((x >> 8u32) & 0xff) + 65536 * ((x >> 16u32) & 0xff)
        + 16777216 * ((x >> 24u32) & 0xff)) by (bit_vector);
    assert((x & 0xff) < 256 && ((x >> 8u32) & 0xff) < 256 && ((x >> 16u32) & 0xff) < 256
        && ((x >> 24u32) & 0xff) < 256) by (bit_vector);
    assert(b0 == (x & 0xff) && b1 == ((x >> 8u32) & 0xff) && b2 == ((x >> 16u32) & 0xff) && b3 == (
    (x >> 24u32) & 0xff));
}

/// Four bytes per word.
pub proof fn lemma_le_words_len(s: Seq<u32>)
    ensures
        le_words(s).len() == 4 * s.len(),
    decreases s.len(),
{
    if s.len() > 0 {
        lemma_le_words_len(s.drop_last());
    }
}

/// Word `i` of `s` stands in bytes `4i .. 4i + 4` of the encoding.
pub proof fn lemma_le_words_index(s: Seq<u32>, i: int)
    requires
        0 <= i < s.len(),
    ensures
        le_words(s).subrange(4 * i, 4 * i + 4) == le_bytes_u32(s[i]),
    decreases s.len(),
{
    lemma_le_words_len(s);
    lemma_le_words_len(s.drop_last());
    if i == s.len() - 1 {
        assert(le_words(s).subrange(4 * i, 4 * i + 4) =~= le_bytes_u32(s[i]));
    } else {
        lemma_le_words_index(s.drop_last(), i);
        assert(le_words(s).subrange(4 * i, 4 * i + 4) =~= le_words(s.drop_last()).subrange(
            4 * i,
            4 * i + 4,
        ));
    }
}

/// Every word of `s` can be read back from its encoding.
pub proof fn lemma_le_words_roundtrip(s: Seq<u32>, i: int)
    requires
        0 <= i < s.len(),
    ensures
        le_value(le_words(s).subrange(4 * i, 4 * i + 4)) == s[i],
{
    lemma_le_words_index(s, i);
    lemma_le_bytes_roundtrip(s[i]);
}

/// Appends the little-endian bytes of `x` to `out`.
pub fn push_u32_le(out: &mut Vec<u8>, x: u32)
    ensures
        final(out)@ == old(out)@ + le_bytes_u32(x),
{
    out.push((x & 0xff) as u8);
    out.push(((x >> 8u32) & 0xff) as u8);
    out.push(((x >> 16u32) & 0xff) as u8);
    out.push(((x >> 24u32) & 0xff) as u8);
    assert(final(out)@ =~= old(out)@ + le_bytes_u32(x));
}

/// Appends the little-endian bytes of every word of `words`, in order.
pub fn extend_le_words(out: &mut Vec<u8>, words: &[u32])
    ensures
        final(out)@ == old(out)@ + le_words(words@),
{
    let ghost start = out@;
    let mut i: usize = 0;
    while i < words.len()
        invariant
            0 <= i <= words@.len(),
            out@ == start + le_words(words@.take(i as int)),
        decreases words@.len() - i,
    {
        push_u32_le(out, words[i]);
        proof {
            assert(words@.take(i + 1).drop_last() =~= words@.take(i as int));
            assert(out@ =~= start + le_words(words@.take(i + 1)));
        }
        i = i + 1;
    }
    assert(words@.take(i as int) =~= words@);
}

} // verus!
