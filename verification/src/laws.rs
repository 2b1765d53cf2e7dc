//! Laws that relate the operations of the accumulator to one another.
use vstd::prelude::*;
use crate::hasher::ZwoHasher;
use crate::packing::{
    absorb_bytes, absorb_chunks, be_value, chunk_word, le_value, native_value, padded, remainder,
    tail_word, whole_chunks, word_bytes, word_of,
};
use crate::word::{digest, lemma_mix_injective_in_state, lemma_mix_injective_in_word, mix};

verus! {

/// Hashing is deterministic: two accumulators in the same state that absorb
/// the same bytes end in the same state and yield the same digest. In
/// particular two fresh accumulators agree on every input.
pub proof fn lemma_deterministic(a: ZwoHasher, b: ZwoHasher, x: Seq<u8>, y: Seq<u8>)
    requires
        a@ == b@,
        x == y,
    ensures
        absorb_bytes(a@, x) == absorb_bytes(b@, y),
        digest(absorb_bytes(a@, x)) == digest(absorb_bytes(b@, y)),
{
}

/// Absorbing the same chunk words never merges two states.
pub proof fn lemma_absorb_chunks_injective(s: usize, t: usize, a: Seq<u8>, b: Seq<u8>, n: nat)
    requires
        forall|k: int| 0 <= k < n ==> chunk_word(a, k) == chunk_word(b, k),
        absorb_chunks(s, a, n) == absorb_chunks(t, b, n),
    ensures
        s == t,
    decreases n,
{
    if n > 0 {
        let m = (n - 1) as nat;
        assert(chunk_word(a, n - 1) == chunk_word(b, n - 1));
        lemma_mix_injective_in_state(
            absorb_chunks(s, a, m),
            absorb_chunks(t, b, m),
            chunk_word(a, n - 1),
        );
        lemma_absorb_chunks_injective(s, t, a, b, m);
    }
}

/// Absorbing a byte slice never merges two states: from distinct states, the
/// same slice leads to distinct states.
pub proof fn lemma_absorb_bytes_injective_in_state(s: usize, t: usize, bytes: Seq<u8>)
    requires
        absorb_bytes(s, bytes) == absorb_bytes(t, bytes),
    ensures
        s == t,
{
    let n = whole_chunks(bytes);
    let len = bytes.len() as usize;
    lemma_mix_injective_in_state(
        absorb_chunks(mix(s, len), bytes, n),
        absorb_chunks(mix(t, len), bytes, n),
        tail_word(bytes),
    );
    lemma_absorb_chunks_injective(mix(s, len), mix(t, len), bytes, bytes, n);
    lemma_mix_injective_in_state(s, t, len);
}

/// The length word keeps apart what padding alone would merge: two slices of
/// different length that fill the same words, chunk by chunk and in the padded
/// remainder, never lead from one state to the same state.
pub proof fn lemma_length_separates(s: usize, a: Seq<u8>, b: Seq<u8>)
    requires
        a.len() <= usize::MAX,
        b.len() <= usize::MAX,
        a.len() != b.len(),
        whole_chunks(a) == whole_chunks(b),
        forall|k: int| 0 <= k < whole_chunks(a) ==> chunk_word(a, k) == chunk_word(b, k),
        tail_word(a) == tail_word(b),
    ensures
        absorb_bytes(s, a) != absorb_bytes(s, b),
{
    let n = whole_chunks(a);
    let la = a.len() as usize;
    let lb = b.len() as usize;
    if absorb_bytes(s, a) == absorb_bytes(s, b) {
        lemma_mix_injective_in_state(
            absorb_chunks(mix(s, la), a, n),
            absorb_chunks(mix(s, lb), b, n),
            tail_word(a),
        );
        lemma_absorb_chunks_injective(mix(s, la), mix(s, lb), a, b, n);
        lemma_mix_injective_in_word(s, la, lb);
    }
}

/// A slice and the same slice followed by zero bytes, where both end in the
/// same word, never lead from one state to the same state, although they pad
/// to the same words.
pub proof fn lemma_zero_padding_separates(s: usize, a: Seq<u8>, b: Seq<u8>)
    requires
        a.len() < b.len() <= usize::MAX,
        whole_chunks(a) == whole_chunks(b),
        a == b.subrange(0, a.len() as int),
        forall|i: int| a.len() <= i < b.len() ==> b[i] == 0u8,
    ensures
        absorb_bytes(s, a) != absorb_bytes(s, b),
{
    let size = word_bytes() as int;
    let n = whole_chunks(a) as int;
    assert(n * size <= a.len() && a.len() - n * size < size) by (nonlinear_arith)
        requires
            n == a.len() as int / size,
            size > 0,
    ;
    assert forall|k: int| 0 <= k < n implies chunk_word(a, k) == chunk_word(b, k) by {
        assert((k + 1) * size <= n * size && 0 <= k * size <= (k + 1) * size)
            by (nonlinear_arith)
            requires
                0 <= k < n,
                size > 0,
        ;
        assert(a.subrange(k * size, (k + 1) * size) =~= b.subrange(k * size, (k + 1) * size));
    }
    assert(padded(remainder(a)) =~= padded(remainder(b)));
    lemma_length_separates(s, a, b);
}

/// A slice shorter than a word holds no whole chunk.
pub proof fn lemma_short_has_no_whole_chunk(bytes: Seq<u8>)
    requires
        bytes.len() < word_bytes(),
    ensures
        whole_chunks(bytes) == 0,
{
    assert(word_bytes() == 4 || word_bytes() == 8);
}

/// Zero bytes stand for zero in either byte order.
pub proof fn lemma_zero_bytes_value(bytes: Seq<u8>)
    requires
        forall|i: int| 0 <= i < bytes.len() ==> bytes[i] == 0u8,
    ensures
        le_value(bytes) == 0,
        be_value(bytes) == 0,
        native_value(bytes) == 0,
    decreases bytes.len(),
{
    if bytes.len() > 0 {
        lemma_zero_bytes_value(bytes.skip(1));
        lemma_zero_bytes_value(bytes.drop_last());
    }
}

/// An empty slice is absorbed as two zero words, its length and its empty
/// remainder, like any other slice that is shorter than a word.
pub proof fn lemma_empty_slice(s: usize)
    ensures
        absorb_bytes(s, Seq::<u8>::empty()) == mix(mix(s, 0), 0),
{
    let none = Seq::<u8>::empty();
    lemma_short_has_no_whole_chunk(none);
    lemma_zero_bytes_value(padded(remainder(none)));
}

/// An empty slice and a single zero byte never lead from one state to the
/// same state.
pub proof fn lemma_empty_differs_from_zero_byte(s: usize)
    ensures
        absorb_bytes(s, Seq::<u8>::empty()) != absorb_bytes(s, seq![0u8]),
{
    let none = Seq::<u8>::empty();
    let zero = seq![0u8];
    lemma_short_has_no_whole_chunk(none);
    lemma_short_has_no_whole_chunk(zero);
    assert(none =~= zero.subrange(0, 0));
    lemma_zero_padding_separates(s, none, zero);
}

/// A slice shorter than a word is absorbed as exactly two words: its length,
/// then its bytes at the low-address end of a zero-filled word.
pub proof fn lemma_short_slice(s: usize, bytes: Seq<u8>)
    requires
        bytes.len() < word_bytes(),
    ensures
        absorb_bytes(s, bytes) == mix(mix(s, bytes.len() as usize), word_of(padded(bytes))),
{
    lemma_short_has_no_whole_chunk(bytes);
    assert(remainder(bytes) =~= bytes);
}

} // verus!
