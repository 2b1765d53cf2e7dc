//! Packing bytes into machine words, and the reduction of a byte slice to a
//! sequence of word absorbs.
//!
//! A slice is absorbed as its length, then each whole word-sized chunk from
//! left to right, then one last word that holds the trailing bytes at the
//! low-address end of a zero-filled buffer. That last word is absorbed even
//! when no byte is left over. Bytes are packed in the byte order of the machine.
use vstd::prelude::*;
use crate::word::mix;

verus! {

/// The number of bytes in a machine word.
pub open spec fn word_bytes() -> nat {
    (usize::BITS / 8) as nat
}

/// The number read from `bytes` with the first byte least significant.
pub open spec fn le_value(bytes: Seq<u8>) -> nat
    decreases bytes.len(),
{
    if bytes.len() == 0 {
        0
    } else {
        bytes[0] as nat + 256 * le_value(bytes.skip(1))
    }
}

/// The number read from `bytes` with the first byte most significant.
pub open spec fn be_value(bytes: Seq<u8>) -> nat
    decreases bytes.len(),
{
    if bytes.len() == 0 {
        0
    } else {
        256 * be_value(bytes.drop_last()) + bytes.last() as nat
    }
}

/// The number that `bytes` stand for as the memory image of an unsigned
/// integer on the machine at hand.
pub open spec fn native_value(bytes: Seq<u8>) -> nat {
    match vstd::endian::endianness() {
        vstd::endian::Endian::Little => le_value(bytes),
        vstd::endian::Endian::Big => be_value(bytes),
    }
}

/// The machine word whose memory image is `bytes`.
pub open spec fn word_of(bytes: Seq<u8>) -> usize {
    native_value(bytes) as usize
}

/// `bytes` at the low-address end of a word-sized buffer, the rest zero.
pub open spec fn padded(bytes: Seq<u8>) -> Seq<u8> {
    Seq::new(
        word_bytes(),
        |j: int|
            if j < bytes.len() {
                bytes[j]
            } else {
                0u8
            },
    )
}

/// The number of whole word-sized chunks in `bytes`.
pub open spec fn whole_chunks(bytes: Seq<u8>) -> nat {
    bytes.len() / word_bytes()
}

/// The `k`-th whole chunk of `bytes`, as a machine word.
pub open spec fn chunk_word(bytes: Seq<u8>, k: int) -> usize {
    word_of(bytes.subrange(k * word_bytes(), (k + 1) * word_bytes()))
}

/// The bytes that follow the last whole chunk: fewer than a word's worth.
pub open spec fn remainder(bytes: Seq<u8>) -> Seq<u8> {
    bytes.subrange((whole_chunks(bytes) * word_bytes()) as int, bytes.len() as int)
}

/// The zero-padded word that holds the remainder of `bytes`.
pub open spec fn tail_word(bytes: Seq<u8>) -> usize {
    word_of(padded(remainder(bytes)))
}

/// The state after the first `n` whole chunks of `bytes` were absorbed into `s`.
pub open spec fn absorb_chunks(s: usize, bytes: Seq<u8>, n: nat) -> usize
    decreases n,
{
    if n == 0 {
        s
    } else {
        mix(absorb_chunks(s, bytes, (n - 1) as nat), chunk_word(bytes, n - 1))
    }
}

/// The state after the slice `bytes` was absorbed into `s`: the length, the
/// whole chunks in order, then the padded remainder.
pub open spec fn absorb_bytes(s: usize, bytes: Seq<u8>) -> usize {
    mix(
        absorb_chunks(mix(s, bytes.len() as usize), bytes, whole_chunks(bytes)),
        tail_word(bytes),
    )
}

/// Calls `u64::from_ne_bytes`, which reads the eight bytes as the memory image
/// of a `u64` on the machine at hand: first byte least significant on a
/// little-endian machine, most significant on a big-endian one.
#[verifier::external_body]
fn u64_from_native(buf: [u8; 8]) -> (v: u64)
    ensures
        v as nat == native_value(buf@),
{
    u64::from_ne_bytes(buf)
}

/// Calls `u32::from_ne_bytes`, which reads the four bytes as the memory image
/// of a `u32` on the machine at hand: first byte least significant on a
/// little-endian machine, most significant on a big-endian one.
#[verifier::external_body]
fn u32_from_native(buf: [u8; 4]) -> (v: u32)
    ensures
        v as nat == native_value(buf@),
{
    u32::from_ne_bytes(buf)
}

/// The number of bytes in a machine word.
pub(crate) fn word_size() -> (n: usize)
    ensures
        n == word_bytes(),
        n == 4 || n == 8,
{
    if usize::BITS == 64 {
        8
    } else {
        4
    }
}

/// A whole chunk is its own padding.
pub proof fn lemma_padded_whole(bytes: Seq<u8>)
    requires
        bytes.len() == word_bytes(),
    ensures
        padded(bytes) == bytes,
{
    assert(padded(bytes) =~= bytes);
}

/// Reads `count` bytes of `bytes` from `start` on into a zero-filled word.
pub(crate) fn load_word(bytes: &[u8], start: usize, count: usize) -> (w: usize)
    requires
        start + count <= bytes.len(),
        count <= word_bytes(),
    ensures
        w == word_of(padded(bytes@.subrange(start as int, start + count))),
{
    let ghost part = bytes@.subrange(start as int, start + count);
    if usize::BITS == 64 {
        let mut buf: [u8; 8] = [0u8; 8];
        let mut j: usize = 0;
        while j < count
            invariant
                j <= count <= 8,
                start + count <= bytes.len(),
                part == bytes@.subrange(start as int, start + count),
                forall|i: int| 0 <= i < j ==> buf@[i] == part[i],
                forall|i: int| j <= i < 8 ==> buf@[i] == 0u8,
            decreases count - j,
        {
            buf[j] = bytes[start + j];
            j = j + 1;
        }
        assert(buf@ =~= padded(part));
        let v: u64 = u64_from_native(buf);
        #[verifier::truncate]
        (v as usize)
    } else {
        let mut buf: [u8; 4] = [0u8; 4];
        let mut j: usize = 0;
        while j < count
            invariant
                j <= count <= 4,
                start + count <= bytes.len(),
                part == bytes@.subrange(start as int, start + count),
                forall|i: int| 0 <= i < j ==> buf@[i] == part[i],
                forall|i: int| j <= i < 4 ==> buf@[i] == 0u8,
            decreases count - j,
        {
            buf[j] = bytes[start + j];
            j = j + 1;
        }
        assert(buf@ =~= padded(part));
        let v: u32 = u32_from_native(buf);
        v as usize
    }
}

/// `256^n`: the number of values that `n` bytes can stand for.
pub open spec fn radix_power(n: nat) -> nat
    decreases n,
{
    if n == 0 {
        1
    } else {
        256 * radix_power((n - 1) as nat)
    }
}

/// A word's worth of bytes can stand for exactly the values of a word.
pub proof fn lemma_word_radix()
    ensures
        word_bytes() == 4 || word_bytes() == 8,
        radix_power(word_bytes()) == crate::word::word_modulus(),
{
    reveal_with_fuel(radix_power, 9);
}

/// The little-endian value of `n` bytes is below `256^n`.
pub proof fn lemma_le_value_bound(bytes: Seq<u8>)
    ensures
        le_value(bytes) < radix_power(bytes.len()),
    decreases bytes.len(),
{
    if bytes.len() > 0 {
        lemma_le_value_bound(bytes.skip(1));
    }
}

/// More bytes can stand for more values.
pub proof fn lemma_radix_power_monotonic(m: nat, n: nat)
    requires
        m <= n,
    ensures
        radix_power(m) <= radix_power(n),
    decreases n,
{
    if m < n {
        lemma_radix_power_monotonic(m, (n - 1) as nat);
    }
}

/// Zero bytes behind a slice do not change its little-endian value.
pub proof fn lemma_le_value_ignores_trailing_zeros(bytes: Seq<u8>, longer: Seq<u8>)
    requires
        bytes.len() <= longer.len(),
        forall|i: int| 0 <= i < bytes.len() ==> longer[i] == bytes[i],
        forall|i: int| bytes.len() <= i < longer.len() ==> longer[i] == 0u8,
    ensures
        le_value(longer) == le_value(bytes),
    decreases longer.len(),
{
    if bytes.len() == 0 {
        if longer.len() > 0 {
            lemma_le_value_ignores_trailing_zeros(bytes, longer.skip(1));
        }
    } else {
        lemma_le_value_ignores_trailing_zeros(bytes.skip(1), longer.skip(1));
    }
}

/// On a little-endian machine the padded word of a slice that fits in a word
/// is the slice's little-endian value: the first byte is the lowest.
pub proof fn lemma_padded_word_little_endian(bytes: Seq<u8>)
    requires
        bytes.len() <= word_bytes(),
        vstd::endian::endianness() == vstd::endian::Endian::Little,
    ensures
        word_of(padded(bytes)) == le_value(bytes),
{
    lemma_word_radix();
    lemma_le_value_ignores_trailing_zeros(bytes, padded(bytes));
    lemma_le_value_bound(bytes);
    lemma_radix_power_monotonic(bytes.len(), word_bytes());
}

} // verus!
