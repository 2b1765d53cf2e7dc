use std::hash::Hasher;
use zwohash::ZwoHasher;

const WORD_BYTES: usize = (usize::BITS / 8) as usize;

fn by_width(wide: u64, narrow: u64) -> u64 {
    if usize::BITS == 64 {
        wide
    } else {
        narrow
    }
}

fn little_endian() -> bool {
    u16::from_ne_bytes([1, 0]) == 1
}

/// The word whose memory image is `bytes` followed by zeros.
fn padded_word(bytes: &[u8]) -> usize {
    let mut buffer = [0u8; WORD_BYTES];
    buffer[..bytes.len()].copy_from_slice(bytes);
    usize::from_ne_bytes(buffer)
}

fn hash_bytes(bytes: &[u8]) -> u64 {
    let mut hasher = ZwoHasher::default();
    hasher.write(bytes);
    hasher.finish()
}

fn hash_words(words: &[usize]) -> u64 {
    let mut hasher = ZwoHasher::default();
    for &word in words {
        hasher.write_usize(word);
    }
    hasher.finish()
}

/// The words that a slice is absorbed as: length, whole chunks, padded remainder.
fn words_of(bytes: &[u8]) -> Vec<usize> {
    let mut words = vec![bytes.len()];
    let mut chunks = bytes.chunks_exact(WORD_BYTES);
    for chunk in &mut chunks {
        words.push(padded_word(chunk));
    }
    words.push(padded_word(chunks.remainder()));
    words
}

#[test]
fn three_bytes_are_length_word_then_padded_remainder() {
    let explicit = hash_words(&[3, padded_word(&[0x68, 0x65, 0x6c])]);
    assert_eq!(hash_bytes(&[0x68, 0x65, 0x6c]), explicit);
    assert_eq!(hash_bytes(b"hel"), explicit);
    if little_endian() {
        assert_eq!(padded_word(&[0x68, 0x65, 0x6c]), 0x6c6568);
        assert_eq!(hash_bytes(b"hel"), by_width(0x460d2d2f56189679, 0xeacbb899));
    }
}

#[test]
fn whole_chunks_are_absorbed_left_to_right() {
    let data: Vec<u8> = (1..=20).collect();
    assert_eq!(hash_bytes(&data), hash_words(&words_of(&data)));
    if usize::BITS == 64 {
        assert_eq!(words_of(&data).len(), 4);
    } else {
        assert_eq!(words_of(&data).len(), 7);
    }
    if little_endian() {
        assert_eq!(hash_bytes(&data), by_width(0x815f009ce4026ca8, 0xe1c43d6b));
        assert_eq!(hash_bytes(b"hello world"), by_width(0xed7427ccf981ae79, 0xb967d69d));
    }
}

#[test]
fn bytes_are_packed_in_native_order() {
    // A packing that ignored the order of the bytes inside a word would not
    // tell these apart.
    let forward: Vec<u8> = (1..=8).collect();
    let backward: Vec<u8> = (1..=8).rev().collect();
    assert_ne!(hash_bytes(&forward), hash_bytes(&backward));
    assert_eq!(hash_bytes(&forward), hash_words(&words_of(&forward)));
    if little_endian() && usize::BITS == 64 {
        assert_eq!(words_of(&forward), vec![8, 0x0807060504030201, 0]);
    }
}

#[test]
fn exact_multiple_still_absorbs_an_empty_remainder() {
    let data: Vec<u8> = (1..=8).collect();
    let mut words = vec![data.len()];
    for chunk in data.chunks(WORD_BYTES) {
        words.push(padded_word(chunk));
    }
    let without_remainder = hash_words(&words);
    words.push(0);
    assert_eq!(hash_bytes(&data), hash_words(&words));
    assert_ne!(hash_bytes(&data), without_remainder);
    if little_endian() {
        assert_eq!(hash_bytes(&data), by_width(0x8e875b32077ce5fc, 0x908e86c9));
    }
}

#[test]
fn empty_slice_is_absorbed_as_two_zero_words() {
    assert_eq!(hash_bytes(&[]), hash_words(&[0, 0]));

    let mut hasher = ZwoHasher::default();
    hasher.write_usize(5);
    let before = hasher.finish();
    hasher.write(&[]);
    let after = hasher.finish();
    assert_ne!(before, after);
    assert_eq!(after, hash_words(&[5, 0, 0]));
}

#[test]
fn empty_slice_and_zero_byte_do_not_commute() {
    let mut empty_then_zero = ZwoHasher::default();
    empty_then_zero.write(&[]);
    empty_then_zero.write(&[0]);

    let mut zero_then_empty = ZwoHasher::default();
    zero_then_empty.write(&[0]);
    zero_then_empty.write(&[]);

    assert_ne!(empty_then_zero.finish(), zero_then_empty.finish());
    assert_ne!(zero_then_empty.finish(), hash_bytes(&[0]));
    assert_ne!(hash_bytes(&[]), hash_bytes(&[0]));
    assert_eq!(zero_then_empty.finish(), by_width(0x2ef1bcdb6b0fb09e, 0x3500d80e));
    assert_eq!(hash_bytes(&[0]), by_width(0xa153016166f44dee, 0x50251f57));
}

#[test]
fn zero_state_absorbs_zero_words_without_moving() {
    // Zero times the multiplier, rotated, is zero: a fresh accumulator that
    // absorbs only zero words stays at zero.
    assert_eq!(hash_bytes(&[]), 0);
    let mut hasher = ZwoHasher::default();
    hasher.write(&[]);
    hasher.write(&[0]);
    assert_eq!(hasher.finish(), hash_bytes(&[0]));
}

#[test]
fn zero_padded_slices_of_different_length_differ() {
    let mut digests: Vec<u64> = Vec::new();
    for length in 0..200 {
        digests.push(hash_bytes(&vec![0u8; length]));
    }
    for i in 0..digests.len() {
        for j in 0..i {
            assert_ne!(digests[i], digests[j], "{} and {} zero bytes", j, i);
        }
    }

    let mut digests: Vec<u64> = Vec::new();
    for zeros in 0..200 {
        let mut data = vec![0x61u8, 0x62];
        data.extend(vec![0u8; zeros]);
        digests.push(hash_bytes(&data));
    }
    for i in 0..digests.len() {
        for j in 0..i {
            assert_ne!(digests[i], digests[j], "{} and {} trailing zero bytes", j, i);
        }
    }
}

#[test]
fn same_bytes_give_the_same_digest() {
    let inputs: [&[u8]; 5] = [b"", b"a", b"hel", b"hello world", &[0u8; 64]];
    for input in inputs {
        assert_eq!(hash_bytes(input), hash_bytes(input));
    }
}

#[test]
fn slices_continue_from_the_accumulated_state() {
    let mut hasher = ZwoHasher::default();
    hasher.write_usize(9);
    hasher.write(b"hel");
    let mut words = vec![9];
    words.extend(words_of(b"hel"));
    assert_eq!(hasher.finish(), hash_words(&words));
}
