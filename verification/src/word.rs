//! The word mixer: how one machine word is folded into the running state, and
//! how the final state is turned into a 64-bit digest.
//!
//! Everything here is stated for the native `usize`, which is either 32 or 64
//! bits wide. The multiplier and the rotation amount are picked per width.
use vstd::prelude::*;

verus! {

/// Multiplier used when a machine word has 64 bits.
pub const MULTIPLIER_WIDE: u64 = 0x2545f4914f6cdd1d;

/// Multiplier used when a machine word has 32 bits.
pub const MULTIPLIER_NARROW: u32 = 0x2c9277b5;

/// Rotation amount used when a machine word has 64 bits.
pub const ROTATION_WIDE: u32 = 41;

/// Rotation amount used when a machine word has 32 bits.
pub const ROTATION_NARROW: u32 = 21;

/// The number of distinct values of a machine word, `2^BITS`.
pub open spec fn word_modulus() -> int {
    usize::MAX as int + 1
}

/// The odd multiplicative constant `M` for the native word width.
pub open spec fn multiplier() -> usize {
    if usize::BITS == 64 {
        MULTIPLIER_WIDE as usize
    } else {
        MULTIPLIER_NARROW as usize
    }
}

/// The rotation amount `R` for the native word width.
pub open spec fn rotation() -> u32 {
    if usize::BITS == 64 {
        ROTATION_WIDE
    } else {
        ROTATION_NARROW
    }
}

/// `x` rotated right by `r` bit positions, for `0 < r < BITS`.
pub open spec fn rotate_right(x: usize, r: u32) -> usize {
    (x >> r) | (x << ((usize::BITS - r) as u32))
}

/// The truncating product `s * M`, reduced to one machine word.
pub open spec fn scale(s: usize) -> usize {
    ((s as int * multiplier() as int) % word_modulus()) as usize
}

/// The state that follows `s` once the word `i` has been absorbed:
/// `rotate_right(s * M, R) XOR i`.
pub open spec fn mix(s: usize, i: usize) -> usize {
    rotate_right(scale(s), rotation()) ^ i
}

/// The low half of the double-width product `s * M`.
pub open spec fn product_low(s: usize) -> int {
    (s as int * multiplier() as int) % word_modulus()
}

/// The high half of the double-width product `s * M`.
pub open spec fn product_high(s: usize) -> int {
    (s as int * multiplier() as int) / word_modulus()
}

/// The digest of a final state `s`: the low half of the double-width product
/// `s * M` minus its high half, modulo `2^BITS`, zero-extended to 64 bits.
pub open spec fn digest(s: usize) -> u64 {
    ((product_low(s) - product_high(s)) % word_modulus()) as u64
}

/// The multiplier for the native word width.
pub(crate) fn multiplier_word() -> (m: usize)
    ensures
        m == multiplier(),
{
    if usize::BITS == 64 {
        #[verifier::truncate]
        (MULTIPLIER_WIDE as usize)
    } else {
        MULTIPLIER_NARROW as usize
    }
}

/// The rotation amount for the native word width.
pub(crate) fn rotation_amount() -> (r: u32)
    ensures
        r == rotation(),
        0 < r < usize::BITS,
{
    if usize::BITS == 64 {
        ROTATION_WIDE
    } else {
        ROTATION_NARROW
    }
}

/// Folds the word `i` into the state `s`.
pub(crate) fn mix_word(s: usize, i: usize) -> (t: usize)
    ensures
        t == mix(s, i),
{
    let r: u32 = rotation_amount();
    let back: u32 = usize::BITS - r;
    let scaled: usize = s.wrapping_mul(multiplier_word());
    ((scaled >> r) | (scaled << back)) ^ i
}

/// The product of two machine words fits in twice the word width.
proof fn lemma_product_bounds(s: usize, m: usize)
    ensures
        0 <= s as int * m as int <= usize::MAX as int * usize::MAX as int,
        (s as int * m as int) / word_modulus() <= usize::MAX as int,
        0 <= (s as int * m as int) / word_modulus(),
{
    let a = s as int;
    let b = m as int;
    let w = usize::MAX as int;
    assert(0 <= a * b <= w * w) by (nonlinear_arith)
        requires
            0 <= a <= w,
            0 <= b <= w,
    ;
    assert((a * b) / (w + 1) <= w && 0 <= (a * b) / (w + 1)) by (nonlinear_arith)
        requires
            0 <= a * b <= w * w,
            w >= 0,
    ;
}

/// Turns the state `s` into its digest.
pub(crate) fn digest_word(s: usize) -> (d: u64)
    ensures
        d == digest(s),
{
    let m: usize = multiplier_word();
    proof {
        lemma_product_bounds(s, m);
    }
    let wide: u128 = (s as u128) * (m as u128);
    let modulus: u128 = usize::MAX as u128 + 1;
    let low: usize = (wide % modulus) as usize;
    let high: usize = (wide / modulus) as usize;
    low.wrapping_sub(high) as u64
}

/// The inverse of the multiplier modulo `2^BITS`. It exists because the
/// multiplier is odd.
pub open spec fn multiplier_inverse() -> usize {
    if usize::BITS == 64 {
        0x59071d96d81ecd35u64 as usize
    } else {
        0xcc2bfe9du32 as usize
    }
}

/// How often `2^BITS` goes into the product of the multiplier and its inverse.
pub open spec fn inverse_quotient() -> int {
    if usize::BITS == 64 {
        0xcf65b3f17bf4a6b
    } else {
        0x238c6053
    }
}

/// The product of the multiplier and its inverse is one more than a multiple
/// of `2^BITS`.
pub proof fn lemma_inverse_product()
    ensures
        multiplier() as int * multiplier_inverse() as int == 1 + inverse_quotient()
            * word_modulus(),
{
    if usize::BITS == 64 {
        assert(word_modulus() == 0x1_0000_0000_0000_0000);
        assert(0x2545f4914f6cdd1d * 0x59071d96d81ecd35 == 1 + 0xcf65b3f17bf4a6b
            * 0x1_0000_0000_0000_0000int);
    } else {
        assert(word_modulus() == 0x1_0000_0000);
        assert(0x2c9277b5 * 0xcc2bfe9d == 1 + 0x238c6053 * 0x1_0000_0000int);
    }
}

/// The multiplier is odd, and the rotation amount stays inside the word.
pub proof fn lemma_constants()
    ensures
        multiplier() % 2 == 1,
        0 < rotation() < usize::BITS,
{
}

/// The rotation amount shares no factor with the word width, so repeated
/// rotations visit every bit position before one comes again.
pub proof fn lemma_rotation_coprime(d: u32)
    by (bit_vector)
    requires
        d > 1,
    ensures
        !(rotation() % d == 0 && usize::BITS % d == 0),
{
}

/// Multiplying by the inverse undoes the truncating multiplication by `M`.
pub proof fn lemma_scale_inverts(s: usize)
    ensures
        (scale(s) as int * multiplier_inverse() as int) % word_modulus() == s,
{
    let n = word_modulus();
    let m = multiplier() as int;
    let inv = multiplier_inverse() as int;
    let q = inverse_quotient();
    let x = s as int;
    lemma_inverse_product();
    assert((x * m) * inv == n * (x * q) + x) by (nonlinear_arith)
        requires
            m * inv == 1 + q * n,
    ;
    vstd::arithmetic::div_mod::lemma_mul_mod_noop_left(x * m, inv, n);
    vstd::arithmetic::div_mod::lemma_mod_multiples_vanish(x * q, x, n);
    vstd::arithmetic::div_mod::lemma_small_mod(x as nat, n as nat);
}

/// The truncating multiplication by `M` sends distinct words to distinct words.
pub proof fn lemma_scale_injective(a: usize, b: usize)
    requires
        scale(a) == scale(b),
    ensures
        a == b,
{
    lemma_scale_inverts(a);
    lemma_scale_inverts(b);
}

/// Rotation by `R` sends distinct words to distinct words.
pub proof fn lemma_rotate_injective(a: usize, b: usize)
    by (bit_vector)
    requires
        rotate_right(a, rotation()) == rotate_right(b, rotation()),
    ensures
        a == b,
{
}

/// Exclusive-or with a fixed word can be cancelled on either side.
pub proof fn lemma_xor_cancel(a: usize, b: usize, i: usize)
    by (bit_vector)
    ensures
        a ^ i == b ^ i ==> a == b,
        i ^ a == i ^ b ==> a == b,
{
}

/// Absorbing a word never merges two states: from distinct states, the same
/// word leads to distinct states.
pub proof fn lemma_mix_injective_in_state(a: usize, b: usize, i: usize)
    requires
        mix(a, i) == mix(b, i),
    ensures
        a == b,
{
    lemma_xor_cancel(rotate_right(scale(a), rotation()), rotate_right(scale(b), rotation()), i);
    lemma_rotate_injective(scale(a), scale(b));
    lemma_scale_injective(a, b);
}

/// Absorbing distinct words into one state leads to distinct states.
pub proof fn lemma_mix_injective_in_word(s: usize, i: usize, j: usize)
    requires
        mix(s, i) == mix(s, j),
    ensures
        i == j,
{
    lemma_xor_cancel(i, j, rotate_right(scale(s), rotation()));
}

/// From the zero state the mixer passes the absorbed word through unchanged.
pub proof fn lemma_mix_from_zero(i: usize)
    ensures
        mix(0, i) == i,
{
    assert(scale(0) == 0);
    assert(rotate_right(0usize, rotation()) ^ i == i) by (bit_vector);
}

} // verus!
