//! The accumulator: one machine word of state, the operations that absorb
//! words, integers and byte slices into it, and the digest read from it.
use vstd::prelude::*;
use crate::packing::{
    absorb_bytes, absorb_chunks, chunk_word, lemma_padded_whole, load_word, whole_chunks,
    word_bytes, word_size,
};
use crate::word::{digest, digest_word, mix, mix_word, word_modulus};

verus! {

/// A fast, deterministic, non-cryptographic hash accumulator.
///
/// It starts at zero, absorbs words and byte slices in the order the caller
/// feeds them, and yields a 64-bit digest at any point without being disturbed.
pub struct ZwoHasher {
    state: usize,
}

impl View for ZwoHasher {
    type V = usize;

    /// The accumulated state.
    closed spec fn view(&self) -> usize {
        self.state
    }
}

/// The state after the 64-bit value `i` was absorbed into `s`: one word where
/// it fits, else its low half and then its high half.
pub open spec fn absorb_u64(s: usize, i: u64) -> usize {
    if usize::BITS == 64 {
        mix(s, i as usize)
    } else {
        mix(mix(s, (i % 0x1_0000_0000) as usize), (i / 0x1_0000_0000) as usize)
    }
}

/// The state after the 128-bit value `i` was absorbed into `s`: its low 64
/// bits and then its high 64 bits.
pub open spec fn absorb_u128(s: usize, i: u128) -> usize {
    absorb_u64(
        absorb_u64(s, (i % 0x1_0000_0000_0000_0000) as u64),
        (i / 0x1_0000_0000_0000_0000) as u64,
    )
}

/// The unsigned integer with the same two's complement bit pattern as `i`,
/// for a width with `modulus` distinct values.
pub open spec fn unsigned_pattern(i: int, modulus: int) -> int {
    if i < 0 {
        i + modulus
    } else {
        i
    }
}

impl Default for ZwoHasher {
    /// A fresh accumulator, with state zero.
    fn default() -> (h: ZwoHasher)
        ensures
            h@ == 0,
    {
        ZwoHasher { state: 0 }
    }
}

impl core::hash::Hasher for ZwoHasher {
    /// Absorbs one machine word.
    fn write_usize(&mut self, i: usize)
        ensures
            final(self)@ == mix(old(self)@, i),
    {
        self.state = mix_word(self.state, i);
    }

    /// The 64-bit digest of what was absorbed so far. The accumulator is left
    /// as it was, so more can be absorbed afterwards.
    fn finish(&self) -> (d: u64)
        ensures
            d == digest(self@),
    {
        digest_word(self.state)
    }

    /// Absorbs a byte slice: its length, its whole chunks in order, then its
    /// zero-padded remainder.
    fn write(&mut self, bytes: &[u8])
        ensures
            final(self)@ == absorb_bytes(old(self)@, bytes@),
    {
        let size: usize = word_size();
        let whole: usize = bytes.len() / size;
        let ghost start = mix(self.state, bytes.len());
        let mut state: usize = mix_word(self.state, bytes.len());
        let mut k: usize = 0;
        while k < whole
            invariant
                k <= whole,
                size == word_bytes(),
                size == 4 || size == 8,
                whole == whole_chunks(bytes@),
                state == absorb_chunks(start, bytes@, k as nat),
            decreases whole - k,
        {
            assert(k * size + size <= bytes.len()) by (nonlinear_arith)
                requires
                    k < whole,
                    whole == bytes.len() / size,
                    size > 0,
            ;
            let word: usize = load_word(bytes, k * size, size);
            proof {
                let chunk = bytes@.subrange(k * size, k * size + size);
                lemma_padded_whole(chunk);
                assert(k * size + size == (k + 1) * size) by (nonlinear_arith);
                assert(word == chunk_word(bytes@, k as int));
            }
            state = mix_word(state, word);
            k = k + 1;
        }
        assert(whole * size <= bytes.len() && bytes.len() - whole * size < size)
            by (nonlinear_arith)
            requires
                whole == bytes.len() / size,
                size > 0,
        ;
        let done: usize = whole * size;
        let word: usize = load_word(bytes, done, bytes.len() - done);
        self.state = mix_word(state, word);
    }

    /// Absorbs an 8-bit unsigned integer as one word.
    fn write_u8(&mut self, i: u8)
        ensures
            final(self)@ == mix(old(self)@, i as usize),
    {
        self.write_usize(i as usize);
    }

    /// Absorbs a 16-bit unsigned integer as one word.
    fn write_u16(&mut self, i: u16)
        ensures
            final(self)@ == mix(old(self)@, i as usize),
    {
        self.write_usize(i as usize);
    }

    /// Absorbs a 32-bit unsigned integer as one word.
    fn write_u32(&mut self, i: u32)
        ensures
            final(self)@ == mix(old(self)@, i as usize),
    {
        self.write_usize(i as usize);
    }

    /// Absorbs a 64-bit unsigned integer: as one word where it fits, else as
    /// its low half and then its high half.
    fn write_u64(&mut self, i: u64)
        ensures
            final(self)@ == absorb_u64(old(self)@, i),
    {
        if usize::BITS == 64 {
            self.write_usize(
                #[verifier::truncate]
                (i as usize),
            );
        } else {
            let low: u64 = i % 0x1_0000_0000;
            let high: u64 = i / 0x1_0000_0000;
            self.write_usize(low as usize);
            self.write_usize(high as usize);
        }
    }

    /// Absorbs a 128-bit unsigned integer: its low 64 bits, then its high 64 bits.
    fn write_u128(&mut self, i: u128)
        ensures
            final(self)@ == absorb_u128(old(self)@, i),
    {
        let low: u128 = i % 0x1_0000_0000_0000_0000;
        let high: u128 = i / 0x1_0000_0000_0000_0000;
        self.write_u64(low as u64);
        self.write_u64(high as u64);
    }

    /// Absorbs an 8-bit signed integer by its bit pattern.
    fn write_i8(&mut self, i: i8)
        ensures
            final(self)@ == mix(old(self)@, unsigned_pattern(i as int, 0x100) as usize),
    {
        assert(i as u8 == unsigned_pattern(i as int, 0x100)) by (bit_vector);
        self.write_u8(
            #[verifier::truncate]
            (i as u8),
        );
    }

    /// Absorbs a 16-bit signed integer by its bit pattern.
    fn write_i16(&mut self, i: i16)
        ensures
            final(self)@ == mix(old(self)@, unsigned_pattern(i as int, 0x1_0000) as usize),
    {
        assert(i as u16 == unsigned_pattern(i as int, 0x1_0000)) by (bit_vector);
        self.write_u16(
            #[verifier::truncate]
            (i as u16),
        );
    }

    /// Absorbs a 32-bit signed integer by its bit pattern.
    fn write_i32(&mut self, i: i32)
        ensures
            final(self)@ == mix(old(self)@, unsigned_pattern(i as int, 0x1_0000_0000) as usize),
    {
        assert(i as u32 == unsigned_pattern(i as int, 0x1_0000_0000)) by (bit_vector);
        self.write_u32(
            #[verifier::truncate]
            (i as u32),
        );
    }

    /// Absorbs a 64-bit signed integer by its bit pattern.
    fn write_i64(&mut self, i: i64)
        ensures
            final(self)@ == absorb_u64(
                old(self)@,
                unsigned_pattern(i as int, 0x1_0000_0000_0000_0000) as u64,
            ),
    {
        assert(i as u64 == unsigned_pattern(i as int, 0x1_0000_0000_0000_0000)) by (bit_vector);
        self.write_u64(
            #[verifier::truncate]
            (i as u64),
        );
    }

    /// Absorbs a 128-bit signed integer by its bit pattern.
    fn write_i128(&mut self, i: i128)
        ensures
            final(self)@ == absorb_u128(
                old(self)@,
                unsigned_pattern(i as int, u128::MAX as int + 1) as u128,
            ),
    {
        assert(i as u128 == unsigned_pattern(i as int, u128::MAX as int + 1)) by (bit_vector);
        self.write_u128(
            #[verifier::truncate]
            (i as u128),
        );
    }

    /// Absorbs a word-sized signed integer by its bit pattern.
    fn write_isize(&mut self, i: isize)
        ensures
            final(self)@ == mix(old(self)@, unsigned_pattern(i as int, word_modulus()) as usize),
    {
        proof {
            if usize::BITS == 64 {
                let wide = i as i64;
                assert(wide as u64 == unsigned_pattern(wide as int, 0x1_0000_0000_0000_0000))
                    by (bit_vector);
                assert(i as usize == wide as u64);
            } else {
                let narrow = i as i32;
                assert(narrow as u32 == unsigned_pattern(narrow as int, 0x1_0000_0000))
                    by (bit_vector);
                assert(i as usize == narrow as u32);
            }
        }
        self.write_usize(
            #[verifier::truncate]
            (i as usize),
        );
    }
}

} // verus!
